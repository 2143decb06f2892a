//! Laws on the handling of an update: what is done next, and what the user is told.

use vstd::prelude::*;
use crate::bot;
use crate::config::Config;
use crate::conversation;
use crate::conversation::{ActionView, Event, KeepView, Situation, Stage};
use crate::models;
use crate::models::{CategoryHit, CategoryInfo, DeliveryMode, FileHit, FileType};
use crate::numbers;
use crate::pagination::PaginatedPage;
use crate::parser;
use crate::settings;
use crate::telegram;
use crate::telegram::Update;
use crate::text;

verus! {

/// True of an action that sends a text, without buttons, as a new message.
pub open spec fn says(action: ActionView, chat_id: i64, s: Seq<char>) -> bool {
    action == (ActionView::Send {
        chat_id,
        message_id: None,
        reply: telegram::ReplyView { text: s, rows: None },
        keep: KeepView::Nothing,
    })
}

// The start.

/// Without a token nothing is done. With one, a message is answered first, a button where there is
/// no message, and an inline query where there is neither.
pub proof fn law_first_step(c: Situation, u: Update, config: Config)
    ensures
        ({
            let (d, action) = conversation::begin_update(c, u, config);
            let token = config.telegram_bot_token is Some;
            &&& !token ==> action is Fail && d.stage == Stage::Over
            &&& token && u.message is Some ==> action == (ActionView::ShowTyping {
                chat_id: (u.message->0).chat.id,
            }) && d.stage == Stage::MessageTyping
            &&& token && u.message is None && u.callback_query is Some && (
            u.callback_query->0).message is Some ==> action == (ActionView::AnswerCallback {
                id: (u.callback_query->0).id@,
            }) && d.stage == Stage::CallbackAnswer
            &&& token && u.message is None && u.callback_query is None && u.inline_query is Some
                ==> action == (ActionView::LoadPreferences {
                user_id: (u.inline_query->0).from.id,
            }) && d.stage == Stage::InlinePreferences
            &&& token && u.message is None && u.callback_query is None && u.inline_query is None
                ==> action == ActionView::Finish
        }),
{
}

// Messages.

/// A message with a place is a question for what is around it: the categories there are looked up,
/// as many as stand on a page.
pub proof fn law_places(c: Situation, u: Update, config: Config, p: models::Preferences)
    requires
        c.stage == Stage::MessageTyping,
        u.message is Some,
        (u.message->0).location is Some,
    ensures
        ({
            let l = (u.message->0).location->0;
            let (d, first) = conversation::next(c, u, config, Event::Done);
            let (f, second) = conversation::next(d, u, config, Event::Loaded(p));
            &&& first == (ActionView::LoadPreferences { user_id: c.user_id })
            &&& second == (ActionView::FindNearbyCategories {
                place: l.latitude@ + seq!['|'] + l.longitude@,
                limit: 20,
            })
            &&& f.preferences == p@
        }),
{
    reveal(conversation::message_loaded);
    reveal_strlit("|");
    assert("|"@ =~= seq!['|']);
}

/// A command edits the preferences of its sender: they are loaded, changed as the command says,
/// stored, and shown.
pub proof fn law_edits(c: Situation, u: Update, config: Config, p: models::Preferences)
    requires
        c.stage == Stage::MessageTyping,
        u.message is Some,
        (u.message->0).location is None,
        (u.message->0).text is Some,
        settings::edits_preferences(((u.message->0).text->0)@),
    ensures
        ({
            let command = ((u.message->0).text->0)@;
            let (d, first) = conversation::next(c, u, config, Event::Done);
            let (f, second) = conversation::next(d, u, config, Event::Loaded(p));
            let (g, third) = conversation::next(f, u, config, Event::Done);
            &&& first == (ActionView::LoadPreferences { user_id: c.user_id })
            &&& second == (ActionView::StorePreferences { user_id: c.user_id })
            &&& f.preferences == settings::edited_by(parser::tokens_of(command), p@)
            &&& third is Send && third->Send_chat_id == c.chat_id
            &&& third->Send_reply.text == settings::preferences_text(
                f.preferences,
                config.stateless_mode,
            )
            &&& third->Send_reply.rows == Some(settings::main_menu(f.preferences))
            &&& g.preferences == f.preferences
        }),
{
    reveal(conversation::message_loaded);
}

/// The statistics are for administrators; anyone else is told so. Where they cannot be had, the
/// administrator is told why.
pub proof fn law_statistics(c: Situation, u: Update, config: Config, s: String)
    requires
        c.stage == Stage::MessageTyping,
        u.message is Some,
        (u.message->0).location is None,
        (u.message->0).text is Some,
        !settings::edits_preferences(((u.message->0).text->0)@),
        parser::intent_of(((u.message->0).text->0)@) == models::IntentView::Stats,
    ensures
        ({
            let (d, action) = conversation::next(c, u, config, Event::Done);
            let told = conversation::next(d, u, config, Event::Stats(s)).1;
            let failed = conversation::next(d, u, config, Event::Failed(s)).1;
            &&& config.admin_user_ids@.contains(c.user_id) ==> action == ActionView::LoadStats
                && says(told, c.chat_id, s@) && says(
                failed,
                c.chat_id,
                "Stats are not available yet: "@ + s@,
            )
            &&& !config.admin_user_ids@.contains(c.user_id) ==> says(
                action,
                c.chat_id,
                "Only the admin can view stats."@,
            )
        }),
{
    reveal(conversation::intended);
}

/// A search for a category looks for it, under the name it gives, and as many as the preferences
/// let be shown.
pub proof fn law_category_searches(
    c: Situation,
    u: Update,
    config: Config,
    p: models::Preferences,
    name: Seq<char>,
)
    requires
        c.stage == Stage::MessageTyping,
        u.message is Some,
        (u.message->0).location is None,
        (u.message->0).text is Some,
        !settings::edits_preferences(((u.message->0).text->0)@),
        parser::intent_of(((u.message->0).text->0)@) == models::IntentView::CategorySearch(name),
    ensures
        ({
            let (d, first) = conversation::next(c, u, config, Event::Done);
            let (f, second) = conversation::next(d, u, config, Event::Loaded(p));
            &&& first == (ActionView::LoadPreferences { user_id: c.user_id })
            &&& second is FindCategories && second->FindCategories_query == name
            &&& p@.pagination_enabled ==> second->FindCategories_limit == 60
            &&& !p@.pagination_enabled ==> second->FindCategories_limit == 20
            &&& f.stage == Stage::Categories && f.preferences == p@
        }),
{
    reveal(conversation::intended);
    reveal(conversation::message_loaded);
}

/// A search for files keeps what is asked for, and the preferences, until the files are there.
pub proof fn law_file_searches(
    c: Situation,
    u: Update,
    config: Config,
    p: models::Preferences,
    q: models::QueryView,
)
    requires
        c.stage == Stage::MessageTyping,
        u.message is Some,
        (u.message->0).location is None,
        (u.message->0).text is Some,
        !settings::edits_preferences(((u.message->0).text->0)@),
        parser::intent_of(((u.message->0).text->0)@) == models::IntentView::FileSearch(q),
    ensures
        ({
            let (d, first) = conversation::next(c, u, config, Event::Done);
            let (f, second) = conversation::next(d, u, config, Event::Loaded(p));
            &&& first == (ActionView::LoadPreferences { user_id: c.user_id })
            &&& second == (ActionView::FindFiles { limit: bot::file_limit(q, p@) })
            &&& f.stage == Stage::Files && f.query == q && f.preferences == p@
        }),
{
    reveal(conversation::intended);
    reveal(conversation::message_loaded);
}

/// The files that were found are sent as the flags of the search say, and where it has none as the
/// preferences say: as links, as previews, or as buttons.
pub proof fn law_found_files(c: Situation, u: Update, config: Config, files: Vec<FileHit>)
    requires
        c.stage == Stage::Files,
    ensures
        ({
            let action = conversation::next(c, u, config, Event::Files(files)).1;
            let flagged = c.query.links_flag || c.query.image_previews_flag;
            let mode = c.preferences.delivery_mode;
            let previews = action is SendPreviews && action->SendPreviews_files == files@
                && action->SendPreviews_chat_id == c.chat_id;
            &&& c.query.links_flag || (!flagged && mode == DeliveryMode::Links10) ==> says(
                action,
                c.chat_id,
                telegram::plain_files(files@),
            )
            &&& !flagged && mode == DeliveryMode::Images10 ==> previews
                && action->SendPreviews_max_images == 10
            &&& !flagged && mode == DeliveryMode::Images20 ==> previews
                && action->SendPreviews_max_images == 20
            &&& !flagged && mode == DeliveryMode::Buttons ==> action is Send
                && action->Send_chat_id == c.chat_id && (files@.len() <= 20
                || !c.preferences.pagination_enabled ==> action->Send_keep == KeepView::Nothing) && (
            files@.len() > 20 && c.preferences.pagination_enabled ==> action->Send_keep is Files
                && action->Send_keep->files == files@)
        }),
{
    reveal(conversation::delivered);
}

/// Behind the files of a search in words come the categories of these words; behind links and
/// previews that were asked for nothing comes.
pub proof fn law_categories_follow(c: Situation, u: Update, config: Config)
    requires
        c.stage == Stage::FilesSent,
    ensures
        ({
            let action = conversation::next(c, u, config, Event::Done).1;
            &&& !c.query.links_flag && !c.query.image_previews_flag && c.topic.len() > 0 ==> action
                is FindCategories && action->FindCategories_query == c.topic
            &&& c.query.links_flag || c.query.image_previews_flag || c.topic.len() == 0 ==> !(action
                is FindCategories)
        }),
{
}

/// The files of categories are counted where the preferences ask for it, and each category gets its
/// own number; without them the list is sent as it is.
pub proof fn law_category_counts(
    c: Situation,
    u: Update,
    config: Config,
    list: Vec<CategoryHit>,
    counts: Vec<Option<u64>>,
    i: int,
)
    requires
        c.stage == Stage::Categories || c.stage == Stage::NearbyCategories,
        0 <= i < list@.len(),
    ensures
        ({
            let (d, action) = conversation::next(c, u, config, Event::Categories(list));
            let (f, reply) = conversation::next(d, u, config, Event::Counts(counts));
            let was = list@[i];
            let now = f.categories[i];
            &&& !c.preferences.show_category_counts ==> action is Send && d.categories == list@
            &&& c.preferences.show_category_counts ==> {
                &&& action is CountFiles
                &&& action->titles.len() == list@.len()
                &&& action->titles[i] == was.display_title@
                &&& f.categories.len() == list@.len()
                &&& i < counts@.len() && counts@[i] is Some ==> now == (CategoryHit {
                    file_count: counts@[i],
                    ..was
                })
                &&& i >= counts@.len() || counts@[i] is None ==> now == was
                &&& reply is Send && reply->Send_chat_id == c.chat_id
            }
        }),
{
    reveal(conversation::found);
    reveal(conversation::listed);
}

/// Where no category is found the user is told so; long lists are kept for paging where the
/// preferences ask for it, and just those.
pub proof fn law_category_lists(c: Situation, u: Update, config: Config, list: Vec<CategoryHit>)
    requires
        c.stage == Stage::Categories || c.stage == Stage::NearbyCategories,
        !c.preferences.show_category_counts,
    ensures
        ({
            let action = conversation::next(c, u, config, Event::Categories(list)).1;
            let paged = list@.len() > 20 && c.preferences.pagination_enabled;
            &&& list@.len() == 0 ==> says(action, c.chat_id, "No categories found."@)
            &&& list@.len() > 0 ==> action is Send && action->Send_chat_id == c.chat_id
                && action->Send_reply.rows is Some
            &&& paged ==> action->Send_keep is Categories && action->Send_keep->categories == list@
            &&& !paged ==> action->Send_keep == KeepView::Nothing
        }),
{
    reveal(conversation::found);
    reveal(conversation::listed);
}

// Buttons.

/// The button of a file opens it, and that of a category opens that, with as many files and
/// subcategories as the preferences let be shown.
pub proof fn law_opening_buttons(
    c: Situation,
    u: Update,
    config: Config,
    p: models::Preferences,
    id: u64,
)
    requires
        c.stage == Stage::CallbackPreferences,
        u.callback_query is Some,
        (u.callback_query->0).data is Some,
    ensures
        ({
            let data = ((u.callback_query->0).data->0)@;
            let (d, action) = conversation::next(c, u, config, Event::Loaded(p));
            &&& data == "file:"@ + numbers::numeral(id as nat) ==> action == (ActionView::OpenFile {
                page_id: id,
            }) && d.preferences == p@
            &&& data == "cat:"@ + numbers::numeral(id as nat) ==> action == (
            ActionView::OpenCategory {
                page_id: id,
                file_limit: bot::category_file_limit(p@),
                category_limit: bot::category_limit(p@),
            }) && d.preferences == p@
        }),
{
    reveal(conversation::pressed);
    let data = ((u.callback_query->0).data->0)@;
    let n = numbers::numeral(id as nat);
    bot::law_opening_buttons_lead_to_pages("file:"@, id);
    bot::law_opening_buttons_lead_to_pages("cat:"@, id);
    reveal_strlit("file:");
    reveal_strlit("cat:");
    reveal_strlit("pref:");
    let f = "file:"@ + n;
    let k = "cat:"@ + n;
    if text::begins(f, "pref:"@) {
        assert(f.take(5)[0] == 'p');
    }
    if text::begins(k, "pref:"@) {
        assert(k.take(5)[0] == 'p');
    }
    if text::begins(k, "file:"@) {
        assert(k.take(5)[0] == 'f');
    }
}

/// A button of the settings changes the preferences as it says and stores them where that is new;
/// the menu is written over the message.
pub proof fn law_setting_buttons(
    c: Situation,
    u: Update,
    config: Config,
    p: models::Preferences,
    action: Seq<char>,
)
    requires
        c.stage == Stage::CallbackPreferences,
        u.callback_query is Some,
        (u.callback_query->0).data is Some,
        ((u.callback_query->0).data->0)@ == "pref:"@ + action,
        settings::callback_outcome(action, p@) is Some,
        (settings::callback_outcome(action, p@)->0).render,
    ensures
        ({
            let outcome = settings::callback_outcome(action, p@)->0;
            let (d, first) = conversation::next(c, u, config, Event::Loaded(p));
            let shown = if outcome.changed {
                conversation::next(d, u, config, Event::Done).1
            } else {
                first
            };
            &&& d.preferences == outcome.preferences
            &&& outcome.changed ==> first == (ActionView::StorePreferences { user_id: c.user_id })
            &&& shown is Send && shown->Send_chat_id == c.chat_id && shown->Send_message_id
                == c.message_id
            &&& shown->Send_reply.text == settings::preferences_text(
                outcome.preferences,
                config.stateless_mode,
            )
            &&& shown->Send_reply.rows == Some(
                settings::menu_of(outcome.preferences, outcome.view),
            )
        }),
{
    reveal(conversation::pressed);
    reveal(conversation::preference_pressed);
    reveal(conversation::menu_shown);
    let data = ((u.callback_query->0).data->0)@;
    assert(data.take("pref:"@.len() as int) =~= "pref:"@);
    assert(data.skip("pref:"@.len() as int) =~= action);
}

/// A button of a page fetches that page of the list it names: files under one letter, categories
/// and subcategories under two others.
pub proof fn law_page_buttons_fetch(
    c: Situation,
    u: Update,
    config: Config,
    p: models::Preferences,
    token: Seq<char>,
    page: usize,
)
    requires
        c.stage == Stage::CallbackPreferences,
        c.message_id is Some,
        u.callback_query is Some,
        (u.callback_query->0).data is Some,
        !token.contains(':'),
    ensures
        ({
            let data = ((u.callback_query->0).data->0)@;
            let action = conversation::next(c, u, config, Event::Loaded(p)).1;
            &&& data == telegram::page_data("f"@, token, page as nat) ==> action == (
            ActionView::FetchFilePage { token, page_index: page })
            &&& data == telegram::page_data("c"@, token, page as nat) ==> action == (
            ActionView::FetchCategoryPage { token, page_index: page })
            &&& data == telegram::page_data("s"@, token, page as nat) ==> action == (
            ActionView::FetchCategoryPage { token, page_index: page })
        }),
{
    reveal(conversation::pressed);
    reveal_strlit("f");
    reveal_strlit("c");
    reveal_strlit("s");
    reveal_strlit("pref:");
    reveal_strlit("pg:");
    assert("f"@[0] == 'f' && "c"@[0] == 'c' && "s"@[0] == 's');
    let n = page as nat;
    bot::law_page_buttons_lead_to_pages("f"@, token, n);
    bot::law_page_buttons_lead_to_pages("c"@, token, n);
    bot::law_page_buttons_lead_to_pages("s"@, token, n);
    lemma_no_setting("f"@, token, n);
    lemma_no_setting("c"@, token, n);
    lemma_no_setting("s"@, token, n);
}

/// The button of a page is none of the settings.
proof fn lemma_no_setting(kind: Seq<char>, token: Seq<char>, page: nat)
    requires
        kind.len() > 0,
    ensures
        !text::begins(telegram::page_data(kind, token, page), "pref:"@),
{
    reveal_strlit("pref:");
    reveal_strlit("pg:");
    let d = telegram::page_data(kind, token, page);
    if text::begins(d, "pref:"@) {
        assert(d.take(5)[1] == 'r');
        assert(d[1] == 'g');
    }
}

/// A page that is no longer kept is answered with a request to search again; one that is, is
/// written over the message.
pub proof fn law_pages_are_shown(
    c: Situation,
    u: Update,
    config: Config,
    files: Option<PaginatedPage<FileHit>>,
    categories: Option<PaginatedPage<CategoryHit>>,
)
    requires
        files is Some ==> (files->0).page_index < usize::MAX,
        categories is Some ==> (categories->0).page_index < usize::MAX,
    ensures
        ({
            let a = conversation::next(c, u, config, Event::FilePage(files)).1;
            let b = conversation::next(c, u, config, Event::CategoryPage(categories)).1;
            &&& c.stage == Stage::FilePage ==> a is Send && a->Send_chat_id == c.chat_id
                && a->Send_message_id == c.message_id
            &&& c.stage == Stage::FilePage && files is None ==> a->Send_reply
                == (telegram::ReplyView {
                text: "Pagination expired. Run the search again."@,
                rows: None,
            })
            &&& c.stage == Stage::FilePage && files is Some ==> a->Send_reply.text
                == telegram::heading(
                "Files"@,
                (files->0).page_index as nat,
                (files->0).total_pages as nat,
            ) && a->Send_reply.rows is Some
            &&& c.stage == Stage::CategoryPage ==> b is Send && b->Send_chat_id == c.chat_id
                && b->Send_message_id == c.message_id
            &&& c.stage == Stage::CategoryPage && categories is None ==> b->Send_reply
                == (telegram::ReplyView {
                text: "Pagination expired. Run the search again."@,
                rows: None,
            })
        }),
{
    reveal(conversation::file_page_taken);
    reveal(conversation::category_page_taken);
}

/// A file that was opened is sent where it is not over the limit, from its own address; one over
/// the limit is refused, and the user is told so.
pub proof fn law_opened_file(c: Situation, u: Update, config: Config, f: FileHit)
    requires
        c.stage == Stage::File,
    ensures
        ({
            let action = conversation::next(c, u, config, Event::File(Some(f))).1;
            &&& f.size_bytes > config.max_file_bytes ==> says(
                action,
                c.chat_id,
                "This file is larger than Telegram's 50 MB bot limit."@,
            )
            &&& f.size_bytes <= config.max_file_bytes && f.url is Some ==> action is SendOriginal
                && action->SendOriginal_chat_id == c.chat_id && action->SendOriginal_file == f
                && action->SendOriginal_url == (f.url->0)@
            &&& f.size_bytes <= config.max_file_bytes && f.url is None ==> action is Fail
        }),
{
    reveal(conversation::file_taken);
}

/// A category with a Wikidata item is shown with the claims of that item, or without them where
/// they cannot be had. Behind its text come its files, as buttons where the preferences ask for
/// them and as previews otherwise, and then its subcategories.
pub proof fn law_opened_category(
    c: Situation,
    u: Update,
    config: Config,
    k: CategoryInfo,
    html: String,
)
    requires
        c.stage == Stage::Category,
    ensures
        ({
            let (d, first) = conversation::next(c, u, config, Event::Category(k));
            let (f, second) = conversation::next(d, u, config, Event::Claims(html));
            let (g, without) = conversation::next(d, u, config, Event::Failed(html));
            let with_claims = CategoryInfo { wikidata_claims_html: Some(html), ..k };
            &&& k.wikidata_item is Some ==> first == (ActionView::LoadClaims {
                item: (k.wikidata_item->0)@,
            }) && says(second, c.chat_id, telegram::category_text(with_claims)) && says(
                without,
                c.chat_id,
                telegram::category_text(k),
            ) && f.category == with_claims && g.category == k
            &&& k.wikidata_item is None ==> says(first, c.chat_id, telegram::category_text(k))
                && d.category == k
        }),
{
    reveal(conversation::category_told);
}

/// What comes behind the text of a category.
pub proof fn law_behind_category_text(c: Situation, u: Update, config: Config)
    requires
        c.stage == Stage::CategoryText,
    ensures
        ({
            let (d, first) = conversation::next(c, u, config, Event::Done);
            let (f, second) = conversation::next(d, u, config, Event::Done);
            let files = c.category.files@;
            let inner = c.category.subcategories@;
            &&& c.preferences.category_file_buttons ==> first is Send && first->Send_chat_id
                == c.chat_id
            &&& !c.preferences.category_file_buttons ==> first == (ActionView::SendPreviews {
                chat_id: c.chat_id,
                files,
                max_images: 20,
            })
            &&& inner.len() == 0 ==> says(second, c.chat_id, "No subcategories found."@)
            &&& inner.len() > 0 ==> second is Send && second->Send_chat_id == c.chat_id
                && second->Send_reply.rows is Some
            &&& inner.len() > 20 && c.preferences.pagination_enabled ==> second->Send_keep
                is Categories && second->Send_keep->categories == inner
        }),
{
    reveal(conversation::category_files_sent);
    reveal(conversation::subcategories_sent);
}

// Inline queries.

/// An inline query looks for pictures unless it says otherwise, and for what it says in all else.
pub proof fn law_inline_search(s: Seq<char>, q: models::QueryView)
    requires
        parser::intent_of(s) == models::IntentView::FileSearch(q),
    ensures
        q.file_type is Some ==> conversation::inline_search(s) == q,
        q.file_type is None ==> conversation::inline_search(s) == (models::QueryView {
            file_type: Some(FileType::Images),
            ..q
        }),
{
}

/// The files around a user who sent their place are looked for where the query leaves that open,
/// and files by what the query says otherwise.
pub proof fn law_inline_places(c: Situation, u: Update, config: Config, p: models::Preferences)
    requires
        c.stage == Stage::InlinePreferences,
        u.inline_query is Some,
    ensures
        ({
            let q = u.inline_query->0;
            let query = conversation::inline_search(q.query@);
            let (d, action) = conversation::next(c, u, config, Event::Loaded(p));
            &&& d.query == query && d.preferences == p@
            &&& q.location is Some && bot::place_applies(query) ==> action is FindNearbyFiles
                && action->FindNearbyFiles_place == (q.location->0).latitude@ + seq!['|'] + (
            q.location->0).longitude@
            &&& q.location is None || !bot::place_applies(query) ==> action is FindFiles
            &&& action is FindFiles ==> action->FindFiles_limit == bot::inline_limit(
                bot::inline_offset(q.offset@),
                p@.inline_result_count,
            )
        }),
{
    reveal_strlit("|");
    assert("|"@ =~= seq!['|']);
    bot::law_inline_lookup_reaches_next(
        bot::inline_offset((u.inline_query->0).offset@),
        p@.inline_result_count,
    );
}

/// An inline query is answered with its page of the files; an answer is kept for a minute, an
/// empty one for a second, and one that depends on the place of the user for that user only.
pub proof fn law_inline_answer(c: Situation, u: Update, config: Config, files: Vec<FileHit>)
    requires
        c.stage == Stage::InlineFiles,
        u.inline_query is Some,
    ensures
        ({
            let q = u.inline_query->0;
            let offset = bot::inline_offset(q.offset@);
            let count = c.preferences.inline_result_count;
            let action = conversation::next(c, u, config, Event::Files(files)).1;
            &&& action is AnswerInline && action->query_id == q.id@
            &&& action->results == telegram::inline_views(
                bot::inline_page(files@, offset, count),
            )
            &&& action->results.len() > 0 ==> action->cache_seconds == 60
            &&& action->results.len() == 0 ==> action->cache_seconds == 1
            &&& q.location is None || !bot::place_applies(c.query) ==> !action->is_personal
            &&& q.location is Some && bot::place_applies(c.query) ==> action->is_personal
            &&& action->next_offset is Some <==> files@.len() > offset + models::inline_count(count)
        }),
{
}

/// An answer that came too late is no failure; any other refusal of one is.
pub proof fn law_late_inline_answer(c: Situation, u: Update, config: Config, reason: String)
    requires
        c.stage == Stage::InlineAnswer,
    ensures
        ({
            let action = conversation::next(c, u, config, Event::Failed(reason)).1;
            &&& bot::says_expired(reason@) ==> action == ActionView::Finish
            &&& !bot::says_expired(reason@) ==> action == (ActionView::Fail { reason: reason@ })
        }),
{
}

} // verus!
