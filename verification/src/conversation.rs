//! The handling of an update, step by step: each step takes what the last action gave and says
//! what is done next.

use vstd::prelude::*;
use vstd::string::*;
use crate::bot;
use crate::config::Config;
use crate::models::{
    CategoryHit, CategoryInfo, FileHit, FileType, Intent, Preferences, SearchQuery,
    DEFAULT_INLINE_RESULT_COUNT,
};
use crate::models;
use crate::pagination::{BUTTON_PAGE_SIZE, PaginatedPage};
use crate::pagination;
use crate::parser;
use crate::settings::PreferencesView;
use crate::settings;
use crate::telegram::{
    Delivery, InlineResult, Location, Message, OriginalDelivery, Reply, Update,
};
use crate::telegram;
use crate::text;

verus! {

// Actions and what they give.

/// A list that is kept so that its pages can be asked for.
#[derive(Debug)]
pub enum Keep {
    /// No list.
    Nothing,
    /// Files.
    Files {
        /// Token of the list.
        token: String,
        /// The list.
        files: Vec<FileHit>,
    },
    /// Categories.
    Categories {
        /// Token of the list.
        token: String,
        /// The list.
        categories: Vec<CategoryHit>,
    },
}

/// The value of `Keep`.
pub enum KeepView {
    Nothing,
    Files { token: Seq<char>, files: Seq<FileHit> },
    Categories { token: Seq<char>, categories: Seq<CategoryHit> },
}

impl View for Keep {
    type V = KeepView;

    open spec fn view(&self) -> KeepView {
        match self {
            Keep::Nothing => KeepView::Nothing,
            Keep::Files { token, files } => KeepView::Files { token: token@, files: files@ },
            Keep::Categories { token, categories } => KeepView::Categories {
                token: token@,
                categories: categories@,
            },
        }
    }
}

/// What is done next.
#[derive(Debug)]
pub enum Action {
    /// Show in a chat that an answer is being written.
    ShowTyping {
        /// The chat.
        chat_id: i64,
    },
    /// Stop the progress indicator of a button.
    AnswerCallback {
        /// Id of the callback query.
        id: String,
    },
    /// Load the preferences of a user.
    LoadPreferences {
        /// The user.
        user_id: i64,
    },
    /// Store the preferences of the conversation for a user.
    StorePreferences {
        /// The user.
        user_id: i64,
    },
    /// Load the statistics.
    LoadStats,
    /// Find the categories around a place.
    FindNearbyCategories {
        /// The place, as `latitude|longitude`.
        place: String,
        /// Number of categories at most.
        limit: usize,
    },
    /// Find categories.
    FindCategories {
        /// What is searched for.
        query: String,
        /// Number of categories at most.
        limit: usize,
    },
    /// Count the files of categories.
    CountFiles {
        /// The categories' titles.
        titles: Vec<String>,
    },
    /// Find the files that the query of the conversation asks for.
    FindFiles {
        /// Number of files at most.
        limit: usize,
    },
    /// Find the files around a place that the query of the conversation asks for.
    FindNearbyFiles {
        /// The place, as `latitude|longitude`.
        place: String,
        /// Number of files at most.
        limit: usize,
    },
    /// Look a file up.
    OpenFile {
        /// Id of the file's page.
        page_id: u64,
    },
    /// Look a category up.
    OpenCategory {
        /// Id of the category's page.
        page_id: u64,
        /// Number of files at most.
        file_limit: usize,
        /// Number of subcategories at most.
        category_limit: usize,
    },
    /// Load the claims of a Wikidata item.
    LoadClaims {
        /// Id of the item.
        item: String,
    },
    /// Fetch a page of a list of files that was kept.
    FetchFilePage {
        /// Token of the list.
        token: String,
        /// Index of the page.
        page_index: usize,
    },
    /// Fetch a page of a list of categories that was kept.
    FetchCategoryPage {
        /// Token of the list.
        token: String,
        /// Index of the page.
        page_index: usize,
    },
    /// Keep a list, and send a message to a chat or write it over an older one.
    Send {
        /// The chat.
        chat_id: i64,
        /// The older message.
        message_id: Option<i64>,
        /// The message.
        reply: Reply,
        /// The list.
        keep: Keep,
    },
    /// Send previews of files to a chat.
    SendPreviews {
        /// The chat.
        chat_id: i64,
        /// The files.
        files: Vec<FileHit>,
        /// Number of previews at most.
        max_images: usize,
    },
    /// Send a file to a chat.
    SendOriginal {
        /// The chat.
        chat_id: i64,
        /// The file.
        file: FileHit,
        /// The address of the file.
        url: String,
        /// HTML caption.
        caption: String,
        /// How the file is sent.
        delivery: OriginalDelivery,
    },
    /// Answer an inline query.
    AnswerInline {
        /// Id of the query.
        query_id: String,
        /// The results.
        results: Vec<InlineResult>,
        /// Seconds for which the answer may be kept.
        cache_seconds: u32,
        /// Whether the answer is for this user only.
        is_personal: bool,
        /// Offset of the next page.
        next_offset: Option<String>,
    },
    /// Nothing: the update is handled.
    Finish,
    /// Nothing: the handling failed.
    Fail {
        /// What went wrong.
        reason: String,
    },
}

/// The value of `Action`.
pub enum ActionView {
    ShowTyping { chat_id: i64 },
    AnswerCallback { id: Seq<char> },
    LoadPreferences { user_id: i64 },
    StorePreferences { user_id: i64 },
    LoadStats,
    FindNearbyCategories { place: Seq<char>, limit: usize },
    FindCategories { query: Seq<char>, limit: usize },
    CountFiles { titles: Seq<Seq<char>> },
    FindFiles { limit: usize },
    FindNearbyFiles { place: Seq<char>, limit: usize },
    OpenFile { page_id: u64 },
    OpenCategory { page_id: u64, file_limit: usize, category_limit: usize },
    LoadClaims { item: Seq<char> },
    FetchFilePage { token: Seq<char>, page_index: usize },
    FetchCategoryPage { token: Seq<char>, page_index: usize },
    Send {
        chat_id: i64,
        message_id: Option<i64>,
        reply: telegram::ReplyView,
        keep: KeepView,
    },
    SendPreviews { chat_id: i64, files: Seq<FileHit>, max_images: usize },
    SendOriginal {
        chat_id: i64,
        file: FileHit,
        url: Seq<char>,
        caption: Seq<char>,
        delivery: OriginalDelivery,
    },
    AnswerInline {
        query_id: Seq<char>,
        results: Seq<telegram::InlineView>,
        cache_seconds: u32,
        is_personal: bool,
        next_offset: Option<Seq<char>>,
    },
    Finish,
    Fail { reason: Seq<char> },
}

impl View for Action {
    type V = ActionView;

    open spec fn view(&self) -> ActionView {
        match self {
            Action::ShowTyping { chat_id } => ActionView::ShowTyping { chat_id: *chat_id },
            Action::AnswerCallback { id } => ActionView::AnswerCallback { id: id@ },
            Action::LoadPreferences { user_id } => ActionView::LoadPreferences {
                user_id: *user_id,
            },
            Action::StorePreferences { user_id } => ActionView::StorePreferences {
                user_id: *user_id,
            },
            Action::LoadStats => ActionView::LoadStats,
            Action::FindNearbyCategories { place, limit } => ActionView::FindNearbyCategories {
                place: place@,
                limit: *limit,
            },
            Action::FindCategories { query, limit } => ActionView::FindCategories {
                query: query@,
                limit: *limit,
            },
            Action::CountFiles { titles } => ActionView::CountFiles {
                titles: text::texts(titles@),
            },
            Action::FindFiles { limit } => ActionView::FindFiles { limit: *limit },
            Action::FindNearbyFiles { place, limit } => ActionView::FindNearbyFiles {
                place: place@,
                limit: *limit,
            },
            Action::OpenFile { page_id } => ActionView::OpenFile { page_id: *page_id },
            Action::OpenCategory { page_id, file_limit, category_limit } => {
                ActionView::OpenCategory {
                    page_id: *page_id,
                    file_limit: *file_limit,
                    category_limit: *category_limit,
                }
            },
            Action::LoadClaims { item } => ActionView::LoadClaims { item: item@ },
            Action::FetchFilePage { token, page_index } => ActionView::FetchFilePage {
                token: token@,
                page_index: *page_index,
            },
            Action::FetchCategoryPage { token, page_index } => ActionView::FetchCategoryPage {
                token: token@,
                page_index: *page_index,
            },
            Action::Send { chat_id, message_id, reply, keep } => ActionView::Send {
                chat_id: *chat_id,
                message_id: *message_id,
                reply: reply@,
                keep: keep@,
            },
            Action::SendPreviews { chat_id, files, max_images } => ActionView::SendPreviews {
                chat_id: *chat_id,
                files: files@,
                max_images: *max_images,
            },
            Action::SendOriginal { chat_id, file, url, caption, delivery } => {
                ActionView::SendOriginal {
                    chat_id: *chat_id,
                    file: *file,
                    url: url@,
                    caption: caption@,
                    delivery: *delivery,
                }
            },
            Action::AnswerInline { query_id, results, cache_seconds, is_personal, next_offset } => {
                ActionView::AnswerInline {
                    query_id: query_id@,
                    results: telegram::result_views(results@),
                    cache_seconds: *cache_seconds,
                    is_personal: *is_personal,
                    next_offset: text::opt_text(*next_offset),
                }
            },
            Action::Finish => ActionView::Finish,
            Action::Fail { reason } => ActionView::Fail { reason: reason@ },
        }
    }
}

/// What an action gave.
#[derive(Debug)]
pub enum Event {
    /// It went well, and gave nothing.
    Done,
    /// It failed, with a message.
    Failed(String),
    /// It was not over in time.
    TimedOut,
    /// Preferences.
    Loaded(Preferences),
    /// The text of the statistics.
    Stats(String),
    /// Categories.
    Categories(Vec<CategoryHit>),
    /// The numbers of files of categories, where they are known.
    Counts(Vec<Option<u64>>),
    /// Files.
    Files(Vec<FileHit>),
    /// A file, where there is one.
    File(Option<FileHit>),
    /// A category.
    Category(CategoryInfo),
    /// The claims of a Wikidata item in HTML.
    Claims(String),
    /// A page of a list of files, where the list is still kept.
    FilePage(Option<PaginatedPage<FileHit>>),
    /// A page of a list of categories, where the list is still kept.
    CategoryPage(Option<PaginatedPage<CategoryHit>>),
}

/// What the conversation waits for.
#[derive(Clone, Copy, Debug, PartialEq, Eq, Structural)]
pub enum Stage {
    /// The message's chat is shown that an answer is being written.
    MessageTyping,
    /// The preferences of the sender of a place.
    NearbyPreferences,
    /// The categories around a place.
    NearbyCategories,
    /// The numbers of their files.
    NearbyCounts,
    /// The preferences that a command edits.
    EditPreferences,
    /// The edited preferences are being stored.
    EditStored,
    /// The preferences of a user who asks for help.
    HelpPreferences,
    /// The preferences of a user who asks for them.
    ShowPreferences,
    /// The statistics.
    Stats,
    /// The preferences of a user who looks for categories.
    CategoryPreferences,
    /// The categories that were found.
    Categories,
    /// The numbers of their files.
    CategoryCounts,
    /// The preferences of a user who looks for files.
    FilePreferences,
    /// The files that were found.
    Files,
    /// The files are being sent.
    FilesSent,
    /// The last answer to a message is being sent.
    MessageReply,
    /// The last answer to the update is being sent.
    LastReply,
    /// A callback is being answered.
    CallbackAnswer,
    /// The callback's chat is shown that an answer is being written.
    CallbackTyping,
    /// The preferences of a user who pressed a button.
    CallbackPreferences,
    /// The preferences that a button changed are being stored.
    CallbackStored {
        /// The menu to show next.
        view: PreferencesView,
        /// Whether it is shown.
        render: bool,
    },
    /// A page of files.
    FilePage,
    /// A page of categories.
    CategoryPage,
    /// A file.
    File,
    /// A category.
    Category,
    /// The claims of the category's Wikidata item.
    Claims,
    /// The category's text is being sent.
    CategoryText,
    /// The category's files are being sent.
    CategoryFiles,
    /// The last answer to a callback is being sent.
    CallbackReply,
    /// The preferences of a user who typed an inline query.
    InlinePreferences,
    /// The files that an inline query found.
    InlineFiles,
    /// An inline query is being answered.
    InlineAnswer,
    /// Nothing: the update is handled, or its handling failed.
    Over,
}

/// The handling of an update.
#[derive(Debug)]
pub struct Conversation {
    /// The update.
    pub update: Update,
    /// What the conversation waits for.
    pub stage: Stage,
    /// The chat that is answered.
    pub chat_id: i64,
    /// The user who is answered.
    pub user_id: i64,
    /// The message whose button was pressed.
    pub message_id: Option<i64>,
    /// The preferences of the user.
    pub preferences: Preferences,
    /// The files that are looked for.
    pub query: SearchQuery,
    /// The command, the place, the category that is looked for, or the data of the button.
    pub topic: String,
    /// The categories that were found.
    pub categories: Vec<CategoryHit>,
    /// The category that was opened.
    pub category: CategoryInfo,
}

/// The value of `Conversation`.
pub struct Situation {
    pub stage: Stage,
    pub chat_id: i64,
    pub user_id: i64,
    pub message_id: Option<i64>,
    pub preferences: models::PreferencesModel,
    pub query: models::QueryView,
    pub topic: Seq<char>,
    pub categories: Seq<CategoryHit>,
    pub category: CategoryInfo,
}

impl View for Conversation {
    type V = Situation;

    open spec fn view(&self) -> Situation {
        Situation {
            stage: self.stage,
            chat_id: self.chat_id,
            user_id: self.user_id,
            message_id: self.message_id,
            preferences: self.preferences@,
            query: self.query@,
            topic: self.topic@,
            categories: self.categories@,
            category: self.category,
        }
    }
}

// Messages.

/// A situation in which another stage is waited for, and an action.
pub open spec fn turn(c: Situation, stage: Stage, action: ActionView) -> (Situation, ActionView) {
    (Situation { stage, ..c }, action)
}

/// The end of a handling that failed.
pub open spec fn failure(c: Situation, reason: Seq<char>) -> (Situation, ActionView) {
    turn(c, Stage::Over, ActionView::Fail { reason })
}

/// The end of a handling whose last action gave something that does not fit.
pub open spec fn stray(c: Situation) -> (Situation, ActionView) {
    failure(c, "unexpected answer"@)
}

/// What an event that a stage does not expect leads to.
pub open spec fn unexpected(c: Situation, e: Event) -> (Situation, ActionView) {
    match e {
        Event::Failed(reason) => failure(c, reason@),
        _ => stray(c),
    }
}

/// A message to a chat.
pub open spec fn message_to(chat_id: i64, reply: telegram::ReplyView) -> ActionView {
    ActionView::Send { chat_id, message_id: None, reply, keep: KeepView::Nothing }
}

/// A text to a chat.
pub open spec fn text_to(chat_id: i64, s: Seq<char>) -> ActionView {
    message_to(chat_id, telegram::plain_reply(s))
}

/// Makes a message to a chat.
fn send(chat_id: i64, reply: Reply) -> (r: Action)
    ensures
        r@ == message_to(chat_id, reply@),
{
    Action::Send { chat_id, message_id: None, reply, keep: Keep::Nothing }
}

/// Makes a text to a chat.
fn send_text(chat_id: i64, s: String) -> (r: Action)
    ensures
        r@ == text_to(chat_id, s@),
{
    send(chat_id, telegram::plain(s))
}

/// The token of a list of categories, where it is kept.
pub open spec fn categories_token(list: Seq<CategoryHit>, paginated: bool) -> Option<Seq<char>> {
    if paginated && list.len() > BUTTON_PAGE_SIZE {
        Some(pagination::token_of(pagination::categories_bytes(list)))
    } else {
        None
    }
}

/// The token of a list of files, where it is kept.
pub open spec fn files_token(list: Seq<FileHit>, paginated: bool) -> Option<Seq<char>> {
    if paginated && list.len() > BUTTON_PAGE_SIZE {
        Some(pagination::token_of(pagination::files_bytes(list)))
    } else {
        None
    }
}

/// A list of categories as it is kept.
pub open spec fn kept_categories(token: Option<Seq<char>>, categories: Seq<CategoryHit>) -> KeepView {
    match token {
        Some(t) => KeepView::Categories { token: t, categories },
        None => KeepView::Nothing,
    }
}

/// A list of files as it is kept.
pub open spec fn kept_files(token: Option<Seq<char>>, files: Seq<FileHit>) -> KeepView {
    match token {
        Some(t) => KeepView::Files { token: t, files },
        None => KeepView::Nothing,
    }
}

/// A list of categories, sent under a heading, or a text where there are none.
pub open spec fn categories_to(
    chat_id: i64,
    heading: Seq<char>,
    none: Seq<char>,
    list: Seq<CategoryHit>,
    paginated: bool,
) -> ActionView {
    let token = categories_token(list, paginated);
    ActionView::Send {
        chat_id,
        message_id: None,
        reply: if list.len() == 0 {
            telegram::plain_reply(none)
        } else {
            telegram::category_list(heading, list, token)
        },
        keep: kept_categories(token, list),
    }
}

/// A list of files, sent as buttons.
pub open spec fn files_to(chat_id: i64, files: Seq<FileHit>, p: models::PreferencesModel) -> ActionView {
    let token = files_token(files, p.pagination_enabled);
    ActionView::Send {
        chat_id,
        message_id: None,
        reply: telegram::file_list(files, p, token),
        keep: kept_files(token, files),
    }
}

/// Copies a list of files.
fn clone_files(files: &Vec<FileHit>) -> (r: Vec<FileHit>)
    ensures
        r@ == files@,
{
    let mut out: Vec<FileHit> = Vec::new();
    let mut i: usize = 0;
    while i < files.len()
        invariant
            i <= files.len(),
            out@ == files@.take(i as int),
        decreases files.len() - i,
    {
        out.push(files[i].clone());
        assert(out@ =~= files@.take(i + 1));
        i += 1;
    }
    assert(files@.take(files.len() as int) =~= files@);
    out
}

/// Copies a list of categories.
fn clone_categories(categories: &Vec<CategoryHit>) -> (r: Vec<CategoryHit>)
    ensures
        r@ == categories@,
{
    let mut out: Vec<CategoryHit> = Vec::new();
    let mut i: usize = 0;
    while i < categories.len()
        invariant
            i <= categories.len(),
            out@ == categories@.take(i as int),
        decreases categories.len() - i,
    {
        out.push(categories[i].clone());
        assert(out@ =~= categories@.take(i + 1));
        i += 1;
    }
    assert(categories@.take(categories.len() as int) =~= categories@);
    out
}

/// The kind of a list of categories.
#[derive(Clone, Copy, Debug, PartialEq, Eq, Structural)]
enum CategoryList {
    /// Found by name.
    Found,
    /// Found by place.
    Closest,
    /// The subcategories of a category.
    Subcategories,
}

/// Makes a message with a list of categories.
fn send_categories(chat_id: i64, kind: CategoryList, list: &Vec<CategoryHit>, paginated: bool) -> (r:
    Action)
    ensures
        r@ == (match kind {
            CategoryList::Found => categories_to(
                chat_id,
                "Categories"@,
                "No categories found."@,
                list@,
                paginated,
            ),
            CategoryList::Closest => categories_to(
                chat_id,
                "Closest categories"@,
                "No categories found."@,
                list@,
                paginated,
            ),
            CategoryList::Subcategories => categories_to(
                chat_id,
                "Subcategories"@,
                "No subcategories found."@,
                list@,
                paginated,
            ),
        }),
{
    let token: Option<String> = if telegram::needs_page_token(list.len(), paginated) {
        Some(pagination::category_list_token(list))
    } else {
        None
    };
    let shown: Option<&str> = match &token {
        Some(t) => Some(t.as_str()),
        None => None,
    };
    let reply = match kind {
        CategoryList::Found => telegram::categories_reply(list, shown),
        CategoryList::Closest => telegram::closest_categories_reply(list, shown),
        CategoryList::Subcategories => telegram::subcategories_reply(list, shown),
    };
    let keep = match token {
        Some(t) => Keep::Categories { token: t, categories: clone_categories(list) },
        None => Keep::Nothing,
    };
    Action::Send { chat_id, message_id: None, reply, keep }
}

/// Makes a message with a list of files.
fn send_files(chat_id: i64, files: &Vec<FileHit>, preferences: &Preferences) -> (r: Action)
    ensures
        r@ == files_to(chat_id, files@, preferences@),
{
    let token: Option<String> = if telegram::needs_page_token(
        files.len(),
        preferences.pagination_enabled,
    ) {
        Some(pagination::file_list_token(files))
    } else {
        None
    };
    let shown: Option<&str> = match &token {
        Some(t) => Some(t.as_str()),
        None => None,
    };
    let reply = telegram::file_list_reply(files, preferences, shown);
    let keep = match token {
        Some(t) => Keep::Files { token: t, files: clone_files(files) },
        None => Keep::Nothing,
    };
    Action::Send { chat_id, message_id: None, reply, keep }
}

// The parts of an update.

/// The user who sent a message, or its chat where no user is named.
pub open spec fn sender(m: Message) -> i64 {
    match m.from {
        Some(user) => user.id,
        None => m.chat.id,
    }
}

/// A place as it is asked for.
pub open spec fn place_of(l: Location) -> Seq<char> {
    l.latitude@ + "|"@ + l.longitude@
}

/// Writes a place as it is asked for.
fn write_place(l: &Location) -> (r: String)
    ensures
        r@ == place_of(*l),
{
    l.latitude.clone().concat("|").concat(l.longitude.as_str())
}

/// The start of the handling of an inline query, where there is one.
pub open spec fn begin_inline(c: Situation, u: Update) -> (Situation, ActionView) {
    match u.inline_query {
        Some(q) => (
            Situation { stage: Stage::InlinePreferences, user_id: q.from.id, ..c },
            ActionView::LoadPreferences { user_id: q.from.id },
        ),
        None => turn(c, Stage::Over, ActionView::Finish),
    }
}

/// The start of the handling of a callback, where there is one.
pub open spec fn begin_callback(c: Situation, u: Update) -> (Situation, ActionView) {
    match u.callback_query {
        Some(q) => match q.message {
            Some(m) => (
                Situation {
                    stage: Stage::CallbackAnswer,
                    chat_id: m.chat.id,
                    user_id: q.from.id,
                    message_id: m.message_id,
                    ..c
                },
                ActionView::AnswerCallback { id: q.id@ },
            ),
            None => failure(c, "callback query has no message"@),
        },
        None => begin_inline(c, u),
    }
}

/// The start of the handling of a message, where there is one.
pub open spec fn begin_message(c: Situation, u: Update) -> (Situation, ActionView) {
    match u.message {
        Some(m) => (
            Situation { stage: Stage::MessageTyping, chat_id: m.chat.id, user_id: sender(m), ..c },
            ActionView::ShowTyping { chat_id: m.chat.id },
        ),
        None => begin_callback(c, u),
    }
}

/// True of the situation in which nothing is known yet.
pub open spec fn blank(c: Situation) -> bool {
    &&& c.stage == Stage::Over
    &&& c.chat_id == 0
    &&& c.user_id == 0
    &&& c.message_id is None
    &&& c.preferences == models::PreferencesModel::initial()
    &&& c.query == models::QueryView::empty(seq![])
    &&& c.topic.len() == 0
    &&& c.categories.len() == 0
    &&& c.category.page_id == 0
    &&& c.category.title@.len() == 0
    &&& c.category.description is None
    &&& c.category.wikidata_item is None
    &&& c.category.wikidata_claims_html is None
    &&& c.category.files@.len() == 0
    &&& c.category.subcategories@.len() == 0
}

/// The start of the handling of an update. Without a token for the bot it fails.
pub open spec fn begin_update(c: Situation, u: Update, config: Config) -> (Situation, ActionView) {
    if config.telegram_bot_token is Some {
        begin_message(c, u)
    } else {
        failure(c, "TELEGRAM_BOT_TOKEN is required"@)
    }
}

/// What is looked for around a place or by name, given the preferences of the user.
#[verifier::opaque]
pub open spec fn listed(c: Situation, nearby: bool) -> (Situation, ActionView) {
    if nearby {
        turn(
            c,
            Stage::LastReply,
            categories_to(
                c.chat_id,
                "Closest categories"@,
                "No categories found."@,
                c.categories,
                c.preferences.pagination_enabled,
            ),
        )
    } else {
        turn(
            c,
            Stage::MessageReply,
            categories_to(
                c.chat_id,
                "Categories"@,
                "No categories found."@,
                c.categories,
                c.preferences.pagination_enabled,
            ),
        )
    }
}

/// The titles of categories.
pub open spec fn titles(categories: Seq<CategoryHit>) -> Seq<Seq<char>> {
    Seq::new(categories.len(), |i: int| categories[i].display_title@)
}

/// What is done with categories that were found: their files are counted where the user wants
/// it, and the list is sent.
#[verifier::opaque]
pub open spec fn found(c: Situation, nearby: bool, list: Seq<CategoryHit>) -> (
    Situation,
    ActionView,
) {
    let d = Situation { categories: list, ..c };
    if c.preferences.show_category_counts {
        turn(
            d,
            if nearby {
                Stage::NearbyCounts
            } else {
                Stage::CategoryCounts
            },
            ActionView::CountFiles { titles: titles(list) },
        )
    } else {
        listed(d, nearby)
    }
}

/// Categories with the numbers of files that are known.
pub open spec fn counted(list: Seq<CategoryHit>, counts: Seq<Option<u64>>) -> Seq<CategoryHit> {
    Seq::new(
        list.len(),
        |i: int|
            if i < counts.len() && counts[i] is Some {
                CategoryHit { file_count: counts[i], ..list[i] }
            } else {
                list[i]
            },
    )
}

/// Sets the numbers of files that are known.
fn enrich_category_counts(categories: &mut Vec<CategoryHit>, counts: &Vec<Option<u64>>)
    ensures
        final(categories)@ == counted(old(categories)@, counts@),
{
    let ghost was = categories@;
    let mut i: usize = 0;
    while i < categories.len() && i < counts.len()
        invariant
            i <= categories.len(),
            categories@.len() == was.len(),
            i <= counts.len(),
            forall|k: int| 0 <= k < i ==> categories@[k] == counted(was, counts@)[k],
            forall|k: int| i <= k < was.len() ==> categories@[k] == was[k],
        decreases categories.len() - i,
    {
        if let Some(n) = counts[i] {
            let hit = CategoryHit {
                page_id: categories[i].page_id,
                title: categories[i].title.clone(),
                display_title: categories[i].display_title.clone(),
                file_count: Some(n),
            };
            categories.set(i, hit);
        }
        i += 1;
    }
    assert(categories@ =~= counted(was, counts@));
}

/// Lists the titles of categories.
fn titles_of(categories: &Vec<CategoryHit>) -> (r: Vec<String>)
    ensures
        text::texts(r@) == titles(categories@),
{
    let mut out: Vec<String> = Vec::new();
    let mut i: usize = 0;
    while i < categories.len()
        invariant
            i <= categories.len(),
            out@.len() == i,
            forall|k: int| 0 <= k < i ==> (#[trigger] out@[k])@ == categories@[k].display_title@,
        decreases categories.len() - i,
    {
        out.push(categories[i].display_title.clone());
        i += 1;
    }
    assert(text::texts(out@) =~= titles(categories@));
    out
}

/// What a message asks for.
#[verifier::opaque]
pub open spec fn intended(c: Situation, intent: models::IntentView, config: Config) -> (
    Situation,
    ActionView,
) {
    let load = ActionView::LoadPreferences { user_id: c.user_id };
    match intent {
        models::IntentView::Help => turn(c, Stage::HelpPreferences, load),
        models::IntentView::Preferences => turn(c, Stage::ShowPreferences, load),
        models::IntentView::Stats => if config.admin_user_ids@.contains(c.user_id) {
            turn(c, Stage::Stats, ActionView::LoadStats)
        } else {
            turn(c, Stage::MessageReply, text_to(c.chat_id, "Only the admin can view stats."@))
        },
        models::IntentView::CategorySearch(name) => turn(
            Situation { topic: name, ..c },
            Stage::CategoryPreferences,
            load,
        ),
        models::IntentView::FileSearch(query) => turn(
            Situation { query, topic: query.term_text(), ..c },
            Stage::FilePreferences,
            load,
        ),
        models::IntentView::Empty => turn(
            c,
            Stage::MessageReply,
            text_to(
                c.chat_id,
                settings::help(
                    config.github_url@,
                    models::PreferencesModel::initial().favorite_categories,
                ),
            ),
        ),
    }
}

/// What is done with a message: a place is looked around, a command edits preferences, and any
/// other text is read as an intent.
pub open spec fn read_message(c: Situation, u: Update, config: Config) -> (Situation, ActionView) {
    match u.message {
        Some(m) => {
            let load = ActionView::LoadPreferences { user_id: c.user_id };
            let command = match m.text {
                Some(t) => t@,
                None => ""@,
            };
            match m.location {
                Some(l) => turn(
                    Situation { topic: place_of(l), ..c },
                    Stage::NearbyPreferences,
                    load,
                ),
                None => if settings::edits_preferences(command) {
                    turn(Situation { topic: command, ..c }, Stage::EditPreferences, load)
                } else {
                    intended(c, parser::intent_of(command), config)
                },
            }
        },
        None => stray(c),
    }
}

/// The message that shows preferences.
pub open spec fn preferences_message(
    p: models::PreferencesModel,
    config: Config,
    view: PreferencesView,
) -> telegram::ReplyView {
    telegram::ReplyView {
        text: settings::preferences_text(p, config.stateless_mode),
        rows: Some(settings::menu_of(p, view)),
    }
}

/// What is done when the preferences of the sender of a message are known.
#[verifier::opaque]
pub open spec fn message_loaded(c: Situation, p: models::PreferencesModel, config: Config) -> (
    Situation,
    ActionView,
) {
    let d = Situation { preferences: p, ..c };
    match c.stage {
        Stage::NearbyPreferences => turn(
            d,
            Stage::NearbyCategories,
            ActionView::FindNearbyCategories { place: c.topic, limit: BUTTON_PAGE_SIZE },
        ),
        Stage::EditPreferences => turn(
            Situation { preferences: settings::edited_by(parser::tokens_of(c.topic), p), ..c },
            Stage::EditStored,
            ActionView::StorePreferences { user_id: c.user_id },
        ),
        Stage::HelpPreferences => turn(
            d,
            Stage::MessageReply,
            text_to(c.chat_id, settings::help(config.github_url@, p.favorite_categories)),
        ),
        Stage::ShowPreferences => turn(
            d,
            Stage::MessageReply,
            message_to(c.chat_id, preferences_message(p, config, PreferencesView::Main)),
        ),
        Stage::CategoryPreferences => turn(
            d,
            Stage::Categories,
            ActionView::FindCategories { query: c.topic, limit: bot::category_limit(p) },
        ),
        Stage::FilePreferences => turn(
            d,
            Stage::Files,
            ActionView::FindFiles { limit: bot::file_limit(c.query, p) },
        ),
        _ => stray(d),
    }
}

/// How files that were found are sent.
#[verifier::opaque]
pub open spec fn delivered(c: Situation, files: Seq<FileHit>) -> ActionView {
    match telegram::delivery_of(
        c.preferences,
        c.query.links_flag,
        c.query.image_previews_flag,
    ) {
        Delivery::Links => text_to(c.chat_id, telegram::plain_files(files)),
        Delivery::Previews(n) => ActionView::SendPreviews {
            chat_id: c.chat_id,
            files,
            max_images: n,
        },
        Delivery::Buttons => files_to(c.chat_id, files, c.preferences),
    }
}

/// What is done after files were sent: categories of the same name are looked for, unless the
/// search has no words or asked for links or previews.
pub open spec fn after_files(c: Situation, u: Update) -> (Situation, ActionView) {
    if !c.query.links_flag && !c.query.image_previews_flag && c.topic.len() > 0 {
        turn(
            c,
            Stage::Categories,
            ActionView::FindCategories {
                query: c.topic,
                limit: bot::category_limit(c.preferences),
            },
        )
    } else {
        begin_callback(c, u)
    }
}

/// A step of the handling of a message.
pub open spec fn message_turn(c: Situation, u: Update, config: Config, e: Event) -> (
    Situation,
    ActionView,
) {
    match (c.stage, e) {
        (Stage::MessageTyping, Event::Done) => read_message(c, u, config),
        (Stage::MessageTyping, Event::Failed(_)) => read_message(c, u, config),
        (Stage::NearbyCategories, Event::Categories(list)) => found(c, true, list@),
        (Stage::NearbyCounts, Event::Counts(counts)) => listed(
            Situation { categories: counted(c.categories, counts@), ..c },
            true,
        ),
        (Stage::Categories, Event::Categories(list)) => found(c, false, list@),
        (Stage::CategoryCounts, Event::Counts(counts)) => listed(
            Situation { categories: counted(c.categories, counts@), ..c },
            false,
        ),
        (Stage::EditStored, Event::Done) => turn(
            c,
            Stage::LastReply,
            message_to(
                c.chat_id,
                preferences_message(c.preferences, config, PreferencesView::Main),
            ),
        ),
        (Stage::Stats, Event::Stats(s)) => turn(c, Stage::MessageReply, text_to(c.chat_id, s@)),
        (Stage::Stats, Event::Failed(reason)) => turn(
            c,
            Stage::MessageReply,
            text_to(c.chat_id, "Stats are not available yet: "@ + reason@),
        ),
        (Stage::Files, Event::Files(files)) => turn(c, Stage::FilesSent, delivered(c, files@)),
        (Stage::FilesSent, Event::Done) => after_files(c, u),
        (Stage::MessageReply, Event::Done) => begin_callback(c, u),
        (Stage::LastReply, Event::Done) => turn(c, Stage::Over, ActionView::Finish),
        (_, Event::Loaded(p)) => message_loaded(c, p@, config),
        _ => unexpected(c, e),
    }
}

// Callbacks.

/// A message that is written over an older one, where there is one.
pub open spec fn message_over(c: Situation, reply: telegram::ReplyView) -> ActionView {
    ActionView::Send {
        chat_id: c.chat_id,
        message_id: c.message_id,
        reply,
        keep: KeepView::Nothing,
    }
}

/// A menu of preferences that is shown in place of the one before, or the next part of the
/// update.
#[verifier::opaque]
pub open spec fn menu_shown(
    c: Situation,
    u: Update,
    config: Config,
    view: PreferencesView,
    render: bool,
) -> (Situation, ActionView) {
    if render {
        turn(
            c,
            Stage::CallbackReply,
            message_over(c, preferences_message(c.preferences, config, view)),
        )
    } else {
        begin_inline(c, u)
    }
}

/// What a button of a menu of preferences leads to.
#[verifier::opaque]
pub open spec fn preference_pressed(c: Situation, u: Update, config: Config, action: Seq<char>) -> (
    Situation,
    ActionView,
) {
    match settings::callback_outcome(action, c.preferences) {
        Some(result) => {
            let d = Situation { preferences: result.preferences, ..c };
            if result.changed {
                turn(
                    d,
                    Stage::CallbackStored { view: result.view, render: result.render },
                    ActionView::StorePreferences { user_id: c.user_id },
                )
            } else {
                menu_shown(d, u, config, result.view, result.render)
            }
        },
        None => begin_inline(c, u),
    }
}

/// What a button that goes to a page leads to.
pub open spec fn page_pressed(
    c: Situation,
    u: Update,
    kind: Seq<char>,
    token: Seq<char>,
    page_index: usize,
) -> (Situation, ActionView) {
    if c.message_id is None {
        failure(c, "pagination callback has no editable message id"@)
    } else if kind == "f"@ {
        turn(c, Stage::FilePage, ActionView::FetchFilePage { token, page_index })
    } else if kind == "c"@ || kind == "s"@ {
        turn(c, Stage::CategoryPage, ActionView::FetchCategoryPage { token, page_index })
    } else {
        begin_inline(c, u)
    }
}

/// What a button with some data leads to, given the preferences of the user.
#[verifier::opaque]
pub open spec fn pressed(c: Situation, u: Update, config: Config, data: Seq<char>) -> (
    Situation,
    ActionView,
) {
    let d = Situation { topic: data, ..c };
    if text::begins(data, "pref:"@) {
        preference_pressed(d, u, config, data.skip("pref:"@.len() as int))
    } else if bot::page_asked(data) is Some {
        let (kind, token, page_index) = bot::page_asked(data)->0;
        page_pressed(d, u, kind, token, page_index as usize)
    } else if bot::number_behind(data, "file:"@) is Some {
        let page_id = bot::number_behind(data, "file:"@)->0;
        turn(d, Stage::File, ActionView::OpenFile { page_id: page_id as u64 })
    } else if bot::number_behind(data, "cat:"@) is Some {
        let page_id = bot::number_behind(data, "cat:"@)->0;
        turn(
            d,
            Stage::Category,
            ActionView::OpenCategory {
                page_id: page_id as u64,
                file_limit: bot::category_file_limit(c.preferences),
                category_limit: bot::category_limit(c.preferences),
            },
        )
    } else {
        begin_inline(d, u)
    }
}

/// What is done when the preferences of a user who pressed a button are known.
pub open spec fn callback_loaded(
    c: Situation,
    u: Update,
    config: Config,
    p: models::PreferencesModel,
) -> (Situation, ActionView) {
    let d = Situation { preferences: p, ..c };
    match u.callback_query {
        Some(q) => match q.data {
            Some(data) => pressed(d, u, config, data@),
            None => begin_inline(d, u),
        },
        None => begin_inline(d, u),
    }
}

/// The message in place of a page whose list is not kept any more.
pub open spec fn expired_message() -> telegram::ReplyView {
    telegram::plain_reply("Pagination expired. Run the search again."@)
}

/// The token of the list whose page was asked for.
pub open spec fn asked_token(data: Seq<char>) -> Seq<char> {
    match bot::page_asked(data) {
        Some((_, token, _)) => token,
        None => ""@,
    }
}

/// The kind of the list whose page was asked for.
pub open spec fn asked_kind(data: Seq<char>) -> Seq<char> {
    match bot::page_asked(data) {
        Some((kind, _, _)) => kind,
        None => ""@,
    }
}

/// The message with a page of files.
pub open spec fn file_page_message(
    page: PaginatedPage<FileHit>,
    p: models::PreferencesModel,
    token: Seq<char>,
) -> telegram::ReplyView {
    telegram::ReplyView {
        text: telegram::heading("Files"@, page.page_index as nat, page.total_pages as nat),
        rows: Some(
            telegram::paged_rows(
                telegram::file_rows(page.items@, p),
                "f"@,
                Some(token),
                page.page_index as nat,
                page.total_pages as nat,
            ),
        ),
    }
}

/// The message with a page of categories.
pub open spec fn category_page_message(
    page: PaginatedPage<CategoryHit>,
    kind: Seq<char>,
    token: Seq<char>,
) -> telegram::ReplyView {
    telegram::ReplyView {
        text: telegram::heading(
            if kind == "s"@ {
                "Subcategories"@
            } else {
                "Categories"@
            },
            page.page_index as nat,
            page.total_pages as nat,
        ),
        rows: Some(
            telegram::paged_rows(
                telegram::category_rows(page.items@),
                kind,
                Some(token),
                page.page_index as nat,
                page.total_pages as nat,
            ),
        ),
    }
}

/// What is done with a page of files.
#[verifier::opaque]
pub open spec fn file_page_taken(c: Situation, page: Option<PaginatedPage<FileHit>>) -> (
    Situation,
    ActionView,
) {
    match page {
        Some(page) => if page.page_index < usize::MAX {
            turn(
                c,
                Stage::CallbackReply,
                message_over(c, file_page_message(page, c.preferences, asked_token(c.topic))),
            )
        } else {
            stray(c)
        },
        None => turn(c, Stage::CallbackReply, message_over(c, expired_message())),
    }
}

/// What is done with a page of categories.
#[verifier::opaque]
pub open spec fn category_page_taken(c: Situation, page: Option<PaginatedPage<CategoryHit>>) -> (
    Situation,
    ActionView,
) {
    match page {
        Some(page) => if page.page_index < usize::MAX {
            turn(
                c,
                Stage::CallbackReply,
                message_over(
                    c,
                    category_page_message(page, asked_kind(c.topic), asked_token(c.topic)),
                ),
            )
        } else {
            stray(c)
        },
        None => turn(c, Stage::CallbackReply, message_over(c, expired_message())),
    }
}

/// What is done with a file that was asked for.
#[verifier::opaque]
pub open spec fn file_taken(c: Situation, u: Update, config: Config, file: Option<FileHit>) -> (
    Situation,
    ActionView,
) {
    match file {
        Some(f) => if f.size_bytes > config.max_file_bytes {
            turn(
                c,
                Stage::CallbackReply,
                text_to(c.chat_id, "This file is larger than Telegram's 50 MB bot limit."@),
            )
        } else {
            match f.url {
                Some(url) => turn(
                    c,
                    Stage::CallbackReply,
                    ActionView::SendOriginal {
                        chat_id: c.chat_id,
                        file: f,
                        url: url@,
                        caption: telegram::caption_of(telegram::metadata_lines(f, c.preferences)),
                        delivery: telegram::original_delivery_of(f),
                    },
                ),
                None => failure(c, "file has no original URL"@),
            }
        },
        None => begin_inline(c, u),
    }
}

/// The message about the category that was opened.
#[verifier::opaque]
pub open spec fn category_told(c: Situation) -> (Situation, ActionView) {
    turn(c, Stage::CategoryText, text_to(c.chat_id, telegram::category_text(c.category)))
}

/// What is done with a category that was opened: the claims of its Wikidata item are loaded, where
/// it has one, and it is described.
pub open spec fn category_taken(c: Situation, category: CategoryInfo) -> (Situation, ActionView) {
    let d = Situation { category, ..c };
    match category.wikidata_item {
        Some(item) => turn(d, Stage::Claims, ActionView::LoadClaims { item: item@ }),
        None => category_told(d),
    }
}

/// How the files of a category that was opened are sent.
#[verifier::opaque]
pub open spec fn category_files_sent(c: Situation) -> (Situation, ActionView) {
    let files = c.category.files@;
    turn(
        c,
        Stage::CategoryFiles,
        if c.preferences.category_file_buttons {
            files_to(c.chat_id, files, c.preferences)
        } else {
            ActionView::SendPreviews { chat_id: c.chat_id, files, max_images: BUTTON_PAGE_SIZE }
        },
    )
}

/// The message with the subcategories of a category that was opened.
#[verifier::opaque]
pub open spec fn subcategories_sent(c: Situation) -> (Situation, ActionView) {
    turn(
        c,
        Stage::CallbackReply,
        categories_to(
            c.chat_id,
            "Subcategories"@,
            "No subcategories found."@,
            c.category.subcategories@,
            c.preferences.pagination_enabled,
        ),
    )
}

/// A step of the handling of a callback.
pub open spec fn callback_turn(c: Situation, u: Update, config: Config, e: Event) -> (
    Situation,
    ActionView,
) {
    match (c.stage, e) {
        (Stage::CallbackAnswer, Event::Done) => turn(
            c,
            Stage::CallbackTyping,
            ActionView::ShowTyping { chat_id: c.chat_id },
        ),
        (Stage::CallbackAnswer, Event::Failed(_)) => turn(
            c,
            Stage::CallbackTyping,
            ActionView::ShowTyping { chat_id: c.chat_id },
        ),
        (Stage::CallbackTyping, Event::Done) => turn(
            c,
            Stage::CallbackPreferences,
            ActionView::LoadPreferences { user_id: c.user_id },
        ),
        (Stage::CallbackTyping, Event::Failed(_)) => turn(
            c,
            Stage::CallbackPreferences,
            ActionView::LoadPreferences { user_id: c.user_id },
        ),
        (Stage::CallbackPreferences, Event::Loaded(p)) => callback_loaded(c, u, config, p@),
        (Stage::CallbackStored { view, render }, Event::Done) => menu_shown(
            c,
            u,
            config,
            view,
            render,
        ),
        (Stage::FilePage, Event::FilePage(page)) => file_page_taken(c, page),
        (Stage::CategoryPage, Event::CategoryPage(page)) => category_page_taken(c, page),
        (Stage::File, Event::File(file)) => file_taken(c, u, config, file),
        (Stage::Category, Event::Category(category)) => category_taken(c, category),
        (Stage::Claims, Event::Claims(html)) => category_told(
            Situation {
                category: CategoryInfo { wikidata_claims_html: Some(html), ..c.category },
                ..c
            },
        ),
        (Stage::Claims, Event::Failed(_)) => category_told(c),
        (Stage::CategoryText, Event::Done) => category_files_sent(c),
        (Stage::CategoryFiles, Event::Done) => subcategories_sent(c),
        (Stage::CallbackReply, Event::Done) => begin_inline(c, u),
        _ => unexpected(c, e),
    }
}

// Inline queries.

/// The search that an inline query asks for: images, unless it says something else.
pub open spec fn inline_search(s: Seq<char>) -> models::QueryView {
    let q = match parser::intent_of(s) {
        models::IntentView::FileSearch(q) => q,
        _ => models::QueryView::empty(seq![]),
    };
    models::QueryView {
        file_type: match q.file_type {
            Some(t) => Some(t),
            None => Some(FileType::Images),
        },
        ..q
    }
}

/// True where the results of an inline query are ranked by place.
pub open spec fn by_place(u: Update, q: models::QueryView) -> bool {
    &&& u.inline_query is Some
    &&& (u.inline_query->0).location is Some
    &&& bot::place_applies(q)
}

/// What is done when the preferences of a user who typed an inline query are known.
pub open spec fn inline_loaded(c: Situation, u: Update, p: models::PreferencesModel) -> (
    Situation,
    ActionView,
) {
    match u.inline_query {
        Some(q) => {
            let query = inline_search(q.query@);
            let limit = bot::inline_limit(bot::inline_offset(q.offset@), p.inline_result_count);
            turn(
                Situation { preferences: p, query, ..c },
                Stage::InlineFiles,
                if by_place(u, query) {
                    ActionView::FindNearbyFiles {
                        place: place_of(q.location->0),
                        limit: limit as usize,
                    }
                } else {
                    ActionView::FindFiles { limit: limit as usize }
                },
            )
        },
        None => stray(Situation { preferences: p, ..c }),
    }
}

/// The answer to an inline query.
pub open spec fn inline_answered(
    c: Situation,
    u: Update,
    files: Seq<FileHit>,
    is_personal: bool,
    count: usize,
) -> (Situation, ActionView) {
    match u.inline_query {
        Some(q) => {
            let offset = bot::inline_offset(q.offset@);
            let page = bot::inline_page(files, offset, count);
            let results = telegram::inline_views(page);
            turn(
                c,
                Stage::InlineAnswer,
                ActionView::AnswerInline {
                    query_id: q.id@,
                    results,
                    cache_seconds: if results.len() == 0 {
                        1u32
                    } else {
                        60u32
                    },
                    is_personal,
                    next_offset: bot::next_inline_offset(files.len(), offset, count),
                },
            )
        },
        None => stray(c),
    }
}

/// A step of the handling of an inline query.
pub open spec fn inline_turn(c: Situation, u: Update, e: Event) -> (Situation, ActionView) {
    match (c.stage, e) {
        (Stage::InlinePreferences, Event::Loaded(p)) => inline_loaded(c, u, p@),
        (Stage::InlineFiles, Event::Files(files)) => inline_answered(
            c,
            u,
            files@,
            by_place(u, c.query),
            c.preferences.inline_result_count,
        ),
        (Stage::InlinePreferences, Event::TimedOut) => inline_answered(
            c,
            u,
            seq![],
            false,
            DEFAULT_INLINE_RESULT_COUNT,
        ),
        (Stage::InlineFiles, Event::TimedOut) => inline_answered(
            c,
            u,
            seq![],
            false,
            DEFAULT_INLINE_RESULT_COUNT,
        ),
        (Stage::InlineAnswer, Event::Done) => turn(c, Stage::Over, ActionView::Finish),
        (Stage::InlineAnswer, Event::Failed(reason)) => if bot::says_expired(reason@) {
            turn(c, Stage::Over, ActionView::Finish)
        } else {
            failure(c, reason@)
        },
        _ => unexpected(c, e),
    }
}

/// The part of an update that a stage belongs to.
#[derive(Clone, Copy, Debug, PartialEq, Eq, Structural)]
pub enum Part {
    /// The message.
    Message,
    /// The callback.
    Callback,
    /// The inline query.
    Inline,
    /// None of them: the handling is over.
    Nothing,
}

/// The part that a stage belongs to.
pub open spec fn part_of(stage: Stage) -> Part {
    match stage {
        Stage::CallbackAnswer
        | Stage::CallbackTyping
        | Stage::CallbackPreferences
        | Stage::CallbackStored { .. }
        | Stage::FilePage
        | Stage::CategoryPage
        | Stage::File
        | Stage::Category
        | Stage::Claims
        | Stage::CategoryText
        | Stage::CategoryFiles
        | Stage::CallbackReply => Part::Callback,
        Stage::InlinePreferences | Stage::InlineFiles | Stage::InlineAnswer => Part::Inline,
        Stage::Over => Part::Nothing,
        _ => Part::Message,
    }
}

/// A step of the handling of an update.
pub open spec fn next(c: Situation, u: Update, config: Config, e: Event) -> (Situation, ActionView) {
    match part_of(c.stage) {
        Part::Message => message_turn(c, u, config, e),
        Part::Callback => callback_turn(c, u, config, e),
        Part::Inline => inline_turn(c, u, e),
        Part::Nothing => turn(c, Stage::Over, ActionView::Finish),
    }
}

impl Conversation {
    /// Makes the conversation about an update.
    pub fn new(update: Update) -> (r: Self)
        ensures
            r.update == update,
            blank(r@),
    {
        Conversation {
            update,
            stage: Stage::Over,
            chat_id: 0,
            user_id: 0,
            message_id: None,
            preferences: Preferences::default(),
            query: SearchQuery::default(),
            topic: String::new(),
            categories: Vec::new(),
            category: CategoryInfo {
                page_id: 0,
                title: String::new(),
                description: None,
                wikidata_item: None,
                wikidata_claims_html: None,
                files: Vec::new(),
                subcategories: Vec::new(),
            },
        }
    }

    /// Starts the handling of the update.
    pub fn begin(&mut self, config: &Config) -> (r: Action)
        ensures
            final(self).update == old(self).update,
            (final(self)@, r@) == begin_update(old(self)@, old(self).update, *config),
    {
        if config.telegram_bot_token.is_some() {
            self.begin_message()
        } else {
            self.fail("TELEGRAM_BOT_TOKEN is required".to_owned())
        }
    }

    /// Ends a handling that failed.
    fn fail(&mut self, reason: String) -> (r: Action)
        ensures
            final(self).update == old(self).update,
            (final(self)@, r@) == failure(old(self)@, reason@),
    {
        self.stage = Stage::Over;
        Action::Fail { reason }
    }

    /// Ends a handling whose last action gave something that does not fit, or failed.
    fn fail_at(&mut self, event: Event) -> (r: Action)
        ensures
            final(self).update == old(self).update,
            (final(self)@, r@) == unexpected(old(self)@, event),
    {
        match event {
            Event::Failed(reason) => self.fail(reason),
            _ => self.fail("unexpected answer".to_owned()),
        }
    }

    /// Starts the handling of an inline query, where there is one.
    fn begin_inline(&mut self) -> (r: Action)
        ensures
            final(self).update == old(self).update,
            (final(self)@, r@) == begin_inline(old(self)@, old(self).update),
    {
        match &self.update.inline_query {
            Some(q) => {
                let user_id: i64 = q.from.id;
                self.user_id = user_id;
                self.stage = Stage::InlinePreferences;
                Action::LoadPreferences { user_id }
            },
            None => {
                self.stage = Stage::Over;
                Action::Finish
            },
        }
    }

    /// Starts the handling of a callback, where there is one.
    fn begin_callback(&mut self) -> (r: Action)
        ensures
            final(self).update == old(self).update,
            (final(self)@, r@) == begin_callback(old(self)@, old(self).update),
    {
        match &self.update.callback_query {
            Some(q) => match &q.message {
                Some(m) => {
                    let id = q.id.clone();
                    let chat_id: i64 = m.chat.id;
                    let user_id: i64 = q.from.id;
                    let message_id: Option<i64> = m.message_id;
                    self.chat_id = chat_id;
                    self.user_id = user_id;
                    self.message_id = message_id;
                    self.stage = Stage::CallbackAnswer;
                    Action::AnswerCallback { id }
                },
                None => self.fail("callback query has no message".to_owned()),
            },
            None => self.begin_inline(),
        }
    }

    /// Starts the handling of a message, where there is one.
    fn begin_message(&mut self) -> (r: Action)
        ensures
            final(self).update == old(self).update,
            (final(self)@, r@) == begin_message(old(self)@, old(self).update),
    {
        match &self.update.message {
            Some(m) => {
                let chat_id: i64 = m.chat.id;
                let user_id: i64 = match &m.from {
                    Some(user) => user.id,
                    None => chat_id,
                };
                self.chat_id = chat_id;
                self.user_id = user_id;
                self.stage = Stage::MessageTyping;
                Action::ShowTyping { chat_id }
            },
            None => self.begin_callback(),
        }
    }

    /// Sends the categories that were found.
    fn list_categories(&mut self, nearby: bool) -> (r: Action)
        ensures
            final(self).update == old(self).update,
            (final(self)@, r@) == listed(old(self)@, nearby),
    {
        proof {
            reveal(listed);
        }
        let paginated: bool = self.preferences.pagination_enabled;
        if nearby {
            self.stage = Stage::LastReply;
            send_categories(self.chat_id, CategoryList::Closest, &self.categories, paginated)
        } else {
            self.stage = Stage::MessageReply;
            send_categories(self.chat_id, CategoryList::Found, &self.categories, paginated)
        }
    }

    /// Takes the categories that were found.
    fn take_categories(&mut self, nearby: bool, list: Vec<CategoryHit>) -> (r: Action)
        ensures
            final(self).update == old(self).update,
            (final(self)@, r@) == found(old(self)@, nearby, list@),
    {
        proof {
            reveal(found);
        }
        self.categories = list;
        if self.preferences.show_category_counts {
            self.stage = if nearby {
                Stage::NearbyCounts
            } else {
                Stage::CategoryCounts
            };
            Action::CountFiles { titles: titles_of(&self.categories) }
        } else {
            self.list_categories(nearby)
        }
    }

    /// Takes the numbers of files of the categories that were found.
    fn take_counts(&mut self, nearby: bool, counts: &Vec<Option<u64>>) -> (r: Action)
        ensures
            final(self).update == old(self).update,
            (final(self)@, r@) == listed(
                (Situation { categories: counted(old(self)@.categories, counts@), ..old(self)@ }),
                nearby,
            ),
    {
        enrich_category_counts(&mut self.categories, counts);
        self.list_categories(nearby)
    }

    /// Reads the message.
    fn read_message(&mut self, config: &Config) -> (r: Action)
        ensures
            final(self).update == old(self).update,
            (final(self)@, r@) == read_message(old(self)@, old(self).update, *config),
    {
        let user_id: i64 = self.user_id;
        let (place, command): (Option<String>, String) = match &self.update.message {
            Some(m) => (
                match &m.location {
                    Some(l) => Some(write_place(l)),
                    None => None,
                },
                match &m.text {
                    Some(t) => t.clone(),
                    None => "".to_owned(),
                },
            ),
            None => return self.fail("unexpected answer".to_owned()),
        };
        if let Some(place) = place {
            self.topic = place;
            self.stage = Stage::NearbyPreferences;
            return Action::LoadPreferences { user_id };
        }
        if settings::is_preferences_update_command(command.as_str()) {
            self.topic = command;
            self.stage = Stage::EditPreferences;
            return Action::LoadPreferences { user_id };
        }
        self.follow_intent(parser::parse_intent(command.as_str()), config)
    }

    /// Does what a message asks for.
    fn follow_intent(&mut self, intent: Intent, config: &Config) -> (r: Action)
        ensures
            final(self).update == old(self).update,
            (final(self)@, r@) == intended(old(self)@, intent@, *config),
    {
        proof {
            reveal(intended);
        }
        let user_id: i64 = self.user_id;
        match intent {
            Intent::Help => {
                self.stage = Stage::HelpPreferences;
                Action::LoadPreferences { user_id }
            },
            Intent::Preferences => {
                self.stage = Stage::ShowPreferences;
                Action::LoadPreferences { user_id }
            },
            Intent::Stats => if config.is_admin(user_id) {
                self.stage = Stage::Stats;
                Action::LoadStats
            } else {
                self.stage = Stage::MessageReply;
                send_text(self.chat_id, "Only the admin can view stats.".to_owned())
            },
            Intent::CategorySearch(name) => {
                self.topic = name;
                self.stage = Stage::CategoryPreferences;
                Action::LoadPreferences { user_id }
            },
            Intent::FileSearch(query) => {
                self.topic = query.term_text();
                self.query = query;
                self.stage = Stage::FilePreferences;
                Action::LoadPreferences { user_id }
            },
            Intent::Empty => {
                self.stage = Stage::MessageReply;
                send_text(self.chat_id, settings::help_text(config, &Preferences::default()))
            },
        }
    }

    /// Takes the preferences of the sender of a message.
    fn take_preferences(&mut self, preferences: Preferences, config: &Config) -> (r: Action)
        ensures
            final(self).update == old(self).update,
            (final(self)@, r@) == message_loaded(old(self)@, preferences@, *config),
    {
        proof {
            reveal(message_loaded);
        }
        self.preferences = preferences;
        match self.stage {
            Stage::NearbyPreferences => {
                self.stage = Stage::NearbyCategories;
                Action::FindNearbyCategories { place: self.topic.clone(), limit: BUTTON_PAGE_SIZE }
            },
            Stage::EditPreferences => {
                self.preferences = settings::update_preferences(
                    self.topic.as_str(),
                    self.preferences.clone(),
                );
                self.stage = Stage::EditStored;
                Action::StorePreferences { user_id: self.user_id }
            },
            Stage::HelpPreferences => {
                self.stage = Stage::MessageReply;
                send_text(self.chat_id, settings::help_text(config, &self.preferences))
            },
            Stage::ShowPreferences => {
                self.stage = Stage::MessageReply;
                send(
                    self.chat_id,
                    settings::preferences_reply(&self.preferences, config, PreferencesView::Main),
                )
            },
            Stage::CategoryPreferences => {
                self.stage = Stage::Categories;
                Action::FindCategories {
                    query: self.topic.clone(),
                    limit: bot::category_result_limit(&self.preferences),
                }
            },
            Stage::FilePreferences => {
                self.stage = Stage::Files;
                Action::FindFiles { limit: bot::file_result_limit(&self.query, &self.preferences) }
            },
            _ => self.fail("unexpected answer".to_owned()),
        }
    }

    /// Takes the files that were found.
    fn take_files(&mut self, files: Vec<FileHit>) -> (r: Action)
        ensures
            final(self).update == old(self).update,
            (final(self)@, r@) == turn(
                old(self)@,
                Stage::FilesSent,
                delivered(old(self)@, files@),
            ),
    {
        proof {
            reveal(delivered);
        }
        self.stage = Stage::FilesSent;
        let chat_id: i64 = self.chat_id;
        match telegram::choose_delivery(
            &self.preferences,
            self.query.links_flag,
            self.query.image_previews_flag,
        ) {
            Delivery::Links => send_text(chat_id, telegram::plain_files_text(&files)),
            Delivery::Previews(n) => Action::SendPreviews { chat_id, files, max_images: n },
            Delivery::Buttons => send_files(chat_id, &files, &self.preferences),
        }
    }

    /// Looks for categories after files were sent, where the search has words.
    fn follow_files(&mut self) -> (r: Action)
        ensures
            final(self).update == old(self).update,
            (final(self)@, r@) == after_files(old(self)@, old(self).update),
    {
        if !self.query.links_flag && !self.query.image_previews_flag
            && self.topic.as_str().unicode_len() > 0 {
            self.stage = Stage::Categories;
            Action::FindCategories {
                query: self.topic.clone(),
                limit: bot::category_result_limit(&self.preferences),
            }
        } else {
            self.begin_callback()
        }
    }

    /// Goes on with a message.
    fn step_message(&mut self, event: Event, config: &Config) -> (r: Action)
        ensures
            final(self).update == old(self).update,
            (final(self)@, r@) == message_turn(old(self)@, old(self).update, *config, event),
    {
        match (self.stage, event) {
            (Stage::MessageTyping, Event::Done) => self.read_message(config),
            (Stage::MessageTyping, Event::Failed(_)) => self.read_message(config),
            (Stage::NearbyCategories, Event::Categories(list)) => self.take_categories(true, list),
            (Stage::NearbyCounts, Event::Counts(counts)) => self.take_counts(true, &counts),
            (Stage::Categories, Event::Categories(list)) => self.take_categories(false, list),
            (Stage::CategoryCounts, Event::Counts(counts)) => self.take_counts(false, &counts),
            (Stage::EditStored, Event::Done) => {
                self.stage = Stage::LastReply;
                send(
                    self.chat_id,
                    settings::preferences_reply(&self.preferences, config, PreferencesView::Main),
                )
            },
            (Stage::Stats, Event::Stats(s)) => {
                self.stage = Stage::MessageReply;
                send_text(self.chat_id, s)
            },
            (Stage::Stats, Event::Failed(reason)) => {
                self.stage = Stage::MessageReply;
                send_text(
                    self.chat_id,
                    "Stats are not available yet: ".to_owned().concat(reason.as_str()),
                )
            },
            (Stage::Files, Event::Files(files)) => self.take_files(files),
            (Stage::FilesSent, Event::Done) => self.follow_files(),
            (Stage::MessageReply, Event::Done) => self.begin_callback(),
            (Stage::LastReply, Event::Done) => {
                self.stage = Stage::Over;
                Action::Finish
            },
            (_, Event::Loaded(preferences)) => self.take_preferences(preferences, config),
            (_, event) => self.fail_at(event),
        }
    }

    /// Makes a message that is written over an older one, where there is one.
    fn send_over(&self, reply: Reply) -> (r: Action)
        ensures
            r@ == message_over(self@, reply@),
    {
        Action::Send {
            chat_id: self.chat_id,
            message_id: self.message_id,
            reply,
            keep: Keep::Nothing,
        }
    }

    /// Shows a menu of preferences, or goes on with the update.
    fn show_menu(&mut self, config: &Config, view: PreferencesView, render: bool) -> (r: Action)
        ensures
            final(self).update == old(self).update,
            (final(self)@, r@) == menu_shown(
                old(self)@,
                old(self).update,
                *config,
                view,
                render,
            ),
    {
        proof {
            reveal(menu_shown);
        }
        if render {
            self.stage = Stage::CallbackReply;
            self.send_over(settings::preferences_reply(&self.preferences, config, view))
        } else {
            self.begin_inline()
        }
    }

    /// Follows a button of a menu of preferences.
    fn press_preference(&mut self, action: &str, config: &Config) -> (r: Action)
        ensures
            final(self).update == old(self).update,
            (final(self)@, r@) == preference_pressed(
                old(self)@,
                old(self).update,
                *config,
                action@,
            ),
    {
        proof {
            reveal(preference_pressed);
        }
        match settings::apply_preference_callback(action, self.preferences.clone()) {
            Some(result) => {
                let view = result.view;
                let render = result.render;
                let changed = result.changed;
                self.preferences = result.preferences;
                if changed {
                    self.stage = Stage::CallbackStored { view, render };
                    Action::StorePreferences { user_id: self.user_id }
                } else {
                    self.show_menu(config, view, render)
                }
            },
            None => self.begin_inline(),
        }
    }

    /// Follows a button that goes to a page.
    fn press_page(&mut self, kind: &str, token: String, page_index: usize) -> (r: Action)
        ensures
            final(self).update == old(self).update,
            (final(self)@, r@) == page_pressed(
                old(self)@,
                old(self).update,
                kind@,
                token@,
                page_index,
            ),
    {
        if self.message_id.is_none() {
            return self.fail("pagination callback has no editable message id".to_owned());
        }
        if text::same(kind, "f") {
            self.stage = Stage::FilePage;
            Action::FetchFilePage { token, page_index }
        } else if text::same(kind, "c") || text::same(kind, "s") {
            self.stage = Stage::CategoryPage;
            Action::FetchCategoryPage { token, page_index }
        } else {
            self.begin_inline()
        }
    }

    /// Follows a button with some data.
    fn press(&mut self, data: String, config: &Config) -> (r: Action)
        ensures
            final(self).update == old(self).update,
            (final(self)@, r@) == pressed(old(self)@, old(self).update, *config, data@),
    {
        proof {
            reveal(pressed);
        }
        let action = text::strip_prefix(data.as_str(), "pref:");
        let page = bot::parse_pagination_callback(data.as_str());
        let file = bot::parse_number_behind(data.as_str(), "file:");
        let category = bot::parse_number_behind(data.as_str(), "cat:");
        self.topic = data;
        if let Some(action) = action {
            return self.press_preference(action.as_str(), config);
        }
        if let Some((kind, token, page_index)) = page {
            return self.press_page(kind.as_str(), token, page_index);
        }
        if let Some(page_id) = file {
            self.stage = Stage::File;
            return Action::OpenFile { page_id };
        }
        if let Some(page_id) = category {
            self.stage = Stage::Category;
            return Action::OpenCategory {
                page_id,
                file_limit: bot::category_file_result_limit(&self.preferences),
                category_limit: bot::category_result_limit(&self.preferences),
            };
        }
        self.begin_inline()
    }

    /// Takes the preferences of a user who pressed a button.
    fn take_callback_preferences(&mut self, preferences: Preferences, config: &Config) -> (r: Action)
        ensures
            final(self).update == old(self).update,
            (final(self)@, r@) == callback_loaded(
                old(self)@,
                old(self).update,
                *config,
                preferences@,
            ),
    {
        self.preferences = preferences;
        let data: Option<String> = match &self.update.callback_query {
            Some(q) => text::clone_opt(&q.data),
            None => None,
        };
        match data {
            Some(data) => self.press(data, config),
            None => self.begin_inline(),
        }
    }

    /// Shows a page of files.
    fn take_file_page(&mut self, page: Option<PaginatedPage<FileHit>>) -> (r: Action)
        ensures
            final(self).update == old(self).update,
            (final(self)@, r@) == file_page_taken(old(self)@, page),
    {
        proof {
            reveal(file_page_taken);
        }
        let page = match page {
            Some(page) => page,
            None => {
                self.stage = Stage::CallbackReply;
                return self.send_over(
                    telegram::plain("Pagination expired. Run the search again.".to_owned()),
                );
            },
        };
        if page.page_index == usize::MAX {
            return self.fail("unexpected answer".to_owned());
        }
        let token: String = match bot::parse_pagination_callback(self.topic.as_str()) {
            Some((_, token, _)) => token,
            None => "".to_owned(),
        };
        self.stage = Stage::CallbackReply;
        let rows = telegram::file_buttons_page(
            &page.items,
            &self.preferences,
            Some(token.as_str()),
            page.page_index,
            page.total_pages,
        );
        self.send_over(
            Reply {
                text: telegram::paginated_title("Files", page.page_index, page.total_pages),
                rows: Some(rows),
            },
        )
    }

    /// Shows a page of categories.
    fn take_category_page(&mut self, page: Option<PaginatedPage<CategoryHit>>) -> (r: Action)
        ensures
            final(self).update == old(self).update,
            (final(self)@, r@) == category_page_taken(old(self)@, page),
    {
        proof {
            reveal(category_page_taken);
        }
        let page = match page {
            Some(page) => page,
            None => {
                self.stage = Stage::CallbackReply;
                return self.send_over(
                    telegram::plain("Pagination expired. Run the search again.".to_owned()),
                );
            },
        };
        if page.page_index == usize::MAX {
            return self.fail("unexpected answer".to_owned());
        }
        let (kind, token): (String, String) = match bot::parse_pagination_callback(
            self.topic.as_str(),
        ) {
            Some((kind, token, _)) => (kind, token),
            None => ("".to_owned(), "".to_owned()),
        };
        self.stage = Stage::CallbackReply;
        let title = if text::same(kind.as_str(), "s") {
            "Subcategories"
        } else {
            "Categories"
        };
        let rows = telegram::category_buttons_page(
            &page.items,
            Some(token.as_str()),
            page.page_index,
            page.total_pages,
            kind.as_str(),
        );
        self.send_over(
            Reply {
                text: telegram::paginated_title(title, page.page_index, page.total_pages),
                rows: Some(rows),
            },
        )
    }

    /// Sends a file that was asked for.
    fn take_file(&mut self, file: Option<FileHit>, config: &Config) -> (r: Action)
        ensures
            final(self).update == old(self).update,
            (final(self)@, r@) == file_taken(old(self)@, old(self).update, *config, file),
    {
        proof {
            reveal(file_taken);
        }
        let file = match file {
            Some(f) => f,
            None => return self.begin_inline(),
        };
        if file.size_bytes > config.max_file_bytes {
            self.stage = Stage::CallbackReply;
            return send_text(
                self.chat_id,
                "This file is larger than Telegram's 50 MB bot limit.".to_owned(),
            );
        }
        let url: String = match &file.url {
            Some(url) => url.clone(),
            None => return self.fail("file has no original URL".to_owned()),
        };
        self.stage = Stage::CallbackReply;
        let caption = telegram::format_file_metadata(&file, &self.preferences);
        let delivery = telegram::choose_original_delivery(&file);
        Action::SendOriginal { chat_id: self.chat_id, file, url, caption, delivery }
    }

    /// Describes the category that was opened.
    fn tell_category(&mut self) -> (r: Action)
        ensures
            final(self).update == old(self).update,
            (final(self)@, r@) == category_told(old(self)@),
    {
        proof {
            reveal(category_told);
        }
        self.stage = Stage::CategoryText;
        send_text(self.chat_id, telegram::format_category_info(&self.category))
    }

    /// Takes a category that was opened.
    fn take_category(&mut self, category: CategoryInfo) -> (r: Action)
        ensures
            final(self).update == old(self).update,
            (final(self)@, r@) == category_taken(old(self)@, category),
    {
        let item = text::clone_opt(&category.wikidata_item);
        self.category = category;
        match item {
            Some(item) => {
                self.stage = Stage::Claims;
                Action::LoadClaims { item }
            },
            None => self.tell_category(),
        }
    }

    /// Sends the files of the category that was opened.
    fn send_category_files(&mut self) -> (r: Action)
        ensures
            final(self).update == old(self).update,
            (final(self)@, r@) == category_files_sent(old(self)@),
    {
        proof {
            reveal(category_files_sent);
        }
        self.stage = Stage::CategoryFiles;
        if self.preferences.category_file_buttons {
            send_files(self.chat_id, &self.category.files, &self.preferences)
        } else {
            Action::SendPreviews {
                chat_id: self.chat_id,
                files: clone_files(&self.category.files),
                max_images: BUTTON_PAGE_SIZE,
            }
        }
    }

    /// Goes on with a callback.
    fn step_callback(&mut self, event: Event, config: &Config) -> (r: Action)
        ensures
            final(self).update == old(self).update,
            (final(self)@, r@) == callback_turn(old(self)@, old(self).update, *config, event),
    {
        proof {
            reveal(subcategories_sent);
        }
        match (self.stage, event) {
            (Stage::CallbackAnswer, Event::Done) => {
                self.stage = Stage::CallbackTyping;
                Action::ShowTyping { chat_id: self.chat_id }
            },
            (Stage::CallbackAnswer, Event::Failed(_)) => {
                self.stage = Stage::CallbackTyping;
                Action::ShowTyping { chat_id: self.chat_id }
            },
            (Stage::CallbackTyping, Event::Done) => {
                self.stage = Stage::CallbackPreferences;
                Action::LoadPreferences { user_id: self.user_id }
            },
            (Stage::CallbackTyping, Event::Failed(_)) => {
                self.stage = Stage::CallbackPreferences;
                Action::LoadPreferences { user_id: self.user_id }
            },
            (Stage::CallbackPreferences, Event::Loaded(p)) => self.take_callback_preferences(
                p,
                config,
            ),
            (Stage::CallbackStored { view, render }, Event::Done) => self.show_menu(
                config,
                view,
                render,
            ),
            (Stage::FilePage, Event::FilePage(page)) => self.take_file_page(page),
            (Stage::CategoryPage, Event::CategoryPage(page)) => self.take_category_page(page),
            (Stage::File, Event::File(file)) => self.take_file(file, config),
            (Stage::Category, Event::Category(category)) => self.take_category(category),
            (Stage::Claims, Event::Claims(html)) => {
                self.category.wikidata_claims_html = Some(html);
                self.tell_category()
            },
            (Stage::Claims, Event::Failed(_)) => self.tell_category(),
            (Stage::CategoryText, Event::Done) => self.send_category_files(),
            (Stage::CategoryFiles, Event::Done) => {
                self.stage = Stage::CallbackReply;
                send_categories(
                    self.chat_id,
                    CategoryList::Subcategories,
                    &self.category.subcategories,
                    self.preferences.pagination_enabled,
                )
            },
            (Stage::CallbackReply, Event::Done) => self.begin_inline(),
            (_, event) => self.fail_at(event),
        }
    }

    /// Takes the preferences of a user who typed an inline query.
    fn take_inline_preferences(&mut self, preferences: Preferences) -> (r: Action)
        ensures
            final(self).update == old(self).update,
            (final(self)@, r@) == inline_loaded(old(self)@, old(self).update, preferences@),
    {
        self.preferences = preferences;
        let (words, offset, place): (String, usize, Option<String>) =
            match &self.update.inline_query {
            Some(q) => (
                q.query.clone(),
                bot::parse_inline_offset(q.offset.as_str()),
                match &q.location {
                    Some(l) => Some(write_place(l)),
                    None => None,
                },
            ),
            None => return self.fail("unexpected answer".to_owned()),
        };
        let mut query = match parser::parse_intent(words.as_str()) {
            Intent::FileSearch(query) => query,
            _ => SearchQuery::default(),
        };
        if query.file_type.is_none() {
            query.file_type = Some(FileType::Images);
        }
        let limit: usize = bot::inline_lookup_limit(offset, self.preferences.inline_result_count);
        let applies: bool = bot::inline_location_applies(&query);
        self.query = query;
        self.stage = Stage::InlineFiles;
        match place {
            Some(place) => if applies {
                Action::FindNearbyFiles { place, limit }
            } else {
                Action::FindFiles { limit }
            },
            None => Action::FindFiles { limit },
        }
    }

    /// Answers the inline query.
    fn answer_inline(&mut self, files: &Vec<FileHit>, is_personal: bool, count: usize) -> (r: Action)
        ensures
            final(self).update == old(self).update,
            (final(self)@, r@) == inline_answered(
                old(self)@,
                old(self).update,
                files@,
                is_personal,
                count,
            ),
    {
        let (query_id, offset): (String, usize) = match &self.update.inline_query {
            Some(q) => (q.id.clone(), bot::parse_inline_offset(q.offset.as_str())),
            None => return self.fail("unexpected answer".to_owned()),
        };
        let (page, next_offset) = bot::inline_result_page(files, offset, count);
        proof {
            bot::lemma_inline_count(count);
        }
        let results = telegram::inline_results(&page);
        let cache_seconds: u32 = telegram::inline_cache_seconds(results.len());
        self.stage = Stage::InlineAnswer;
        Action::AnswerInline { query_id, results, cache_seconds, is_personal, next_offset }
    }

    /// Returns true when the results of the inline query are ranked by place.
    fn ranks_by_place(&self) -> (r: bool)
        ensures
            r == by_place(self.update, self@.query),
    {
        match &self.update.inline_query {
            Some(q) => q.location.is_some() && bot::inline_location_applies(&self.query),
            None => false,
        }
    }

    /// Goes on with an inline query.
    fn step_inline(&mut self, event: Event) -> (r: Action)
        ensures
            final(self).update == old(self).update,
            (final(self)@, r@) == inline_turn(old(self)@, old(self).update, event),
    {
        match (self.stage, event) {
            (Stage::InlinePreferences, Event::Loaded(p)) => self.take_inline_preferences(p),
            (Stage::InlineFiles, Event::Files(files)) => {
                let is_personal: bool = self.ranks_by_place();
                self.answer_inline(&files, is_personal, self.preferences.inline_result_count)
            },
            (Stage::InlinePreferences, Event::TimedOut) => {
                let none: Vec<FileHit> = Vec::new();
                self.answer_inline(&none, false, DEFAULT_INLINE_RESULT_COUNT)
            },
            (Stage::InlineFiles, Event::TimedOut) => {
                let none: Vec<FileHit> = Vec::new();
                self.answer_inline(&none, false, DEFAULT_INLINE_RESULT_COUNT)
            },
            (Stage::InlineAnswer, Event::Done) => {
                self.stage = Stage::Over;
                Action::Finish
            },
            (Stage::InlineAnswer, Event::Failed(reason)) => {
                if bot::is_expired_inline_query_error(reason.as_str()) {
                    self.stage = Stage::Over;
                    Action::Finish
                } else {
                    self.fail(reason)
                }
            },
            (_, event) => self.fail_at(event),
        }
    }

    /// Returns the part of the update that is being handled.
    pub fn part(&self) -> (r: Part)
        ensures
            r == part_of(self.stage),
    {
        match self.stage {
            Stage::CallbackAnswer
            | Stage::CallbackTyping
            | Stage::CallbackPreferences
            | Stage::CallbackStored { .. }
            | Stage::FilePage
            | Stage::CategoryPage
            | Stage::File
            | Stage::Category
            | Stage::Claims
            | Stage::CategoryText
            | Stage::CategoryFiles
            | Stage::CallbackReply => Part::Callback,
            Stage::InlinePreferences | Stage::InlineFiles | Stage::InlineAnswer => Part::Inline,
            Stage::Over => Part::Nothing,
            _ => Part::Message,
        }
    }

    /// Takes what the last action gave, and says what is done next.
    pub fn step(&mut self, event: Event, config: &Config) -> (r: Action)
        ensures
            final(self).update == old(self).update,
            (final(self)@, r@) == next(old(self)@, old(self).update, *config, event),
    {
        match self.part() {
            Part::Message => self.step_message(event, config),
            Part::Callback => self.step_callback(event, config),
            Part::Inline => self.step_inline(event),
            Part::Nothing => {
                self.stage = Stage::Over;
                Action::Finish
            },
        }
    }
}

// Laws.

/// How many steps a stage is away from the end, at most.
pub open spec fn steps_left(stage: Stage) -> nat {
    match stage {
        Stage::MessageTyping => 25,
        Stage::NearbyPreferences => 24,
        Stage::NearbyCategories => 23,
        Stage::NearbyCounts => 22,
        Stage::EditPreferences => 24,
        Stage::EditStored => 23,
        Stage::HelpPreferences => 24,
        Stage::ShowPreferences => 24,
        Stage::Stats => 24,
        Stage::CategoryPreferences => 24,
        Stage::FilePreferences => 24,
        Stage::Files => 23,
        Stage::FilesSent => 22,
        Stage::Categories => 21,
        Stage::CategoryCounts => 20,
        Stage::MessageReply => 16,
        Stage::LastReply => 16,
        Stage::CallbackAnswer => 15,
        Stage::CallbackTyping => 14,
        Stage::CallbackPreferences => 13,
        Stage::CallbackStored { .. } => 12,
        Stage::FilePage => 12,
        Stage::CategoryPage => 12,
        Stage::File => 12,
        Stage::Category => 12,
        Stage::Claims => 11,
        Stage::CategoryText => 10,
        Stage::CategoryFiles => 9,
        Stage::CallbackReply => 8,
        Stage::InlinePreferences => 3,
        Stage::InlineFiles => 2,
        Stage::InlineAnswer => 1,
        Stage::Over => 0,
    }
}

/// True where the chat, the user and the message of a situation are those of the part of the
/// update that is being handled.
pub open spec fn addressed(c: Situation, u: Update) -> bool {
    match part_of(c.stage) {
        Part::Message => {
            &&& u.message is Some
            &&& c.chat_id == (u.message->0).chat.id
            &&& c.user_id == sender(u.message->0)
        },
        Part::Callback => {
            &&& u.callback_query is Some
            &&& (u.callback_query->0).message is Some
            &&& c.chat_id == ((u.callback_query->0).message->0).chat.id
            &&& c.message_id == ((u.callback_query->0).message->0).message_id
            &&& c.user_id == (u.callback_query->0).from.id
        },
        Part::Inline => {
            &&& u.inline_query is Some
            &&& c.user_id == (u.inline_query->0).from.id
        },
        Part::Nothing => true,
    }
}

/// True of an action that reaches no chat and no user but those of a situation.
pub open spec fn reaches_only(action: ActionView, c: Situation) -> bool {
    match action {
        ActionView::ShowTyping { chat_id } => chat_id == c.chat_id,
        ActionView::LoadPreferences { user_id } => user_id == c.user_id,
        ActionView::StorePreferences { user_id } => user_id == c.user_id,
        ActionView::Send { chat_id, message_id, .. } => {
            chat_id == c.chat_id && (message_id is None || message_id == c.message_id)
        },
        ActionView::SendPreviews { chat_id, .. } => chat_id == c.chat_id,
        ActionView::SendOriginal { chat_id, .. } => chat_id == c.chat_id,
        _ => true,
    }
}

/// True of a step that comes closer to the end than a number of steps, and stays addressed.
spec fn sound(c: Situation, u: Update, t: (Situation, ActionView), bound: nat) -> bool {
    &&& steps_left(t.0.stage) < bound
    &&& addressed(c, u) ==> addressed(t.0, u) && reaches_only(t.1, t.0)
}

/// The start of an inline query.
proof fn lemma_inline_begins(c: Situation, u: Update)
    ensures
        sound(c, u, begin_inline(c, u), 4),
{
}

/// The start of a callback.
proof fn lemma_callback_begins(c: Situation, u: Update)
    ensures
        sound(c, u, begin_callback(c, u), 16),
{
}

/// What a message asks for.
proof fn lemma_intended(c: Situation, u: Update, intent: models::IntentView, config: Config)
    requires
        part_of(c.stage) == Part::Message,
    ensures
        sound(c, u, intended(c, intent, config), 25),
{
    reveal(intended);
}

/// The preferences of the sender of a message.
proof fn lemma_message_loaded(c: Situation, u: Update, p: models::PreferencesModel, config: Config)
    requires
        part_of(c.stage) == Part::Message,
    ensures
        sound(c, u, message_loaded(c, p, config), steps_left(c.stage)),
{
    reveal(message_loaded);
}

/// Categories.
proof fn lemma_found(c: Situation, u: Update, nearby: bool, list: Seq<CategoryHit>)
    requires
        part_of(c.stage) == Part::Message,
        steps_left(c.stage) >= 21,
        nearby ==> steps_left(c.stage) >= 23,
    ensures
        sound(c, u, found(c, nearby, list), steps_left(c.stage)),
{
    reveal(found);
    reveal(listed);
}

/// A list of categories.
proof fn lemma_listed(c: Situation, d: Situation, u: Update, nearby: bool)
    requires
        part_of(c.stage) == Part::Message,
        steps_left(c.stage) >= 17,
        d.stage == c.stage,
        d.chat_id == c.chat_id,
        d.user_id == c.user_id,
    ensures
        sound(c, u, listed(d, nearby), steps_left(c.stage)),
{
    reveal(listed);
}

/// Files.
proof fn lemma_delivered(c: Situation, u: Update, files: Seq<FileHit>)
    requires
        part_of(c.stage) == Part::Message,
        steps_left(c.stage) >= 23,
    ensures
        sound(c, u, turn(c, Stage::FilesSent, delivered(c, files)), steps_left(c.stage)),
{
    reveal(delivered);
}

/// A menu.
proof fn lemma_menu_shown(c: Situation, d: Situation, u: Update, config: Config, view: PreferencesView, render: bool)
    requires
        part_of(c.stage) == Part::Callback,
        d.stage == c.stage,
        d.chat_id == c.chat_id,
        d.user_id == c.user_id,
        d.message_id == c.message_id,
    ensures
        sound(c, u, menu_shown(d, u, config, view, render), 9),
{
    reveal(menu_shown);
    lemma_inline_begins(d, u);
}

/// A button of a menu.
proof fn lemma_preference_pressed(c: Situation, u: Update, config: Config, action: Seq<char>)
    requires
        part_of(c.stage) == Part::Callback,
    ensures
        sound(c, u, preference_pressed(c, u, config, action), 13),
{
    reveal(preference_pressed);
    lemma_inline_begins(c, u);
    if let Some(result) = settings::callback_outcome(action, c.preferences) {
        let d = Situation { preferences: result.preferences, ..c };
        lemma_menu_shown(c, d, u, config, result.view, result.render);
    }
}

/// A button that goes to a page.
proof fn lemma_page_pressed(c: Situation, u: Update, kind: Seq<char>, token: Seq<char>, page_index: usize)
    requires
        part_of(c.stage) == Part::Callback,
    ensures
        sound(c, u, page_pressed(c, u, kind, token, page_index), 13),
{
    lemma_inline_begins(c, u);
}

/// A button.
proof fn lemma_pressed(c: Situation, u: Update, config: Config, data: Seq<char>)
    requires
        part_of(c.stage) == Part::Callback,
    ensures
        sound(c, u, pressed(c, u, config, data), 13),
{
    reveal(pressed);
    let d = Situation { topic: data, ..c };
    lemma_inline_begins(d, u);
    lemma_preference_pressed(d, u, config, data.skip("pref:"@.len() as int));
    if let Some((kind, token, page_index)) = bot::page_asked(data) {
        lemma_page_pressed(d, u, kind, token, page_index as usize);
    }
}

/// The preferences of a user who pressed a button.
proof fn lemma_callback_loaded(c: Situation, u: Update, config: Config, p: models::PreferencesModel)
    requires
        part_of(c.stage) == Part::Callback,
    ensures
        sound(c, u, callback_loaded(c, u, config, p), 13),
{
    let d = Situation { preferences: p, ..c };
    lemma_inline_begins(d, u);
    if let Some(q) = u.callback_query {
        if let Some(data) = q.data {
            lemma_pressed(d, u, config, data@);
        }
    }
}

/// A page of files.
proof fn lemma_file_page(c: Situation, u: Update, page: Option<PaginatedPage<FileHit>>)
    requires
        part_of(c.stage) == Part::Callback,
    ensures
        sound(c, u, file_page_taken(c, page), 9),
{
    reveal(file_page_taken);
}

/// A page of categories.
proof fn lemma_category_page(c: Situation, u: Update, page: Option<PaginatedPage<CategoryHit>>)
    requires
        part_of(c.stage) == Part::Callback,
    ensures
        sound(c, u, category_page_taken(c, page), 9),
{
    reveal(category_page_taken);
}

/// A file.
proof fn lemma_file_taken(c: Situation, u: Update, config: Config, file: Option<FileHit>)
    requires
        part_of(c.stage) == Part::Callback,
    ensures
        sound(c, u, file_taken(c, u, config, file), 9),
{
    reveal(file_taken);
    lemma_inline_begins(c, u);
}

/// The text about a category.
proof fn lemma_category_told(c: Situation, d: Situation, u: Update)
    requires
        part_of(c.stage) == Part::Callback,
        d.stage == c.stage,
        d.chat_id == c.chat_id,
        d.user_id == c.user_id,
        d.message_id == c.message_id,
    ensures
        sound(c, u, category_told(d), 11),
{
    reveal(category_told);
}

/// A category.
proof fn lemma_category_taken(c: Situation, u: Update, category: CategoryInfo)
    requires
        part_of(c.stage) == Part::Callback,
    ensures
        sound(c, u, category_taken(c, category), 12),
{
    let d = Situation { category, ..c };
    lemma_category_told(c, d, u);
}

/// The files of a category.
proof fn lemma_category_files(c: Situation, u: Update)
    requires
        part_of(c.stage) == Part::Callback,
    ensures
        sound(c, u, category_files_sent(c), 10),
{
    reveal(category_files_sent);
}

/// The subcategories of a category.
proof fn lemma_subcategories(c: Situation, u: Update)
    requires
        part_of(c.stage) == Part::Callback,
    ensures
        sound(c, u, subcategories_sent(c), 9),
{
    reveal(subcategories_sent);
}

/// A step of the handling of a message.
proof fn lemma_message_step(c: Situation, u: Update, config: Config, e: Event)
    requires
        part_of(c.stage) == Part::Message,
    ensures
        sound(c, u, message_turn(c, u, config, e), steps_left(c.stage)),
{
    lemma_callback_begins(c, u);
    match e {
        Event::Loaded(p) => {
            lemma_message_loaded(c, u, p@, config);
        },
        Event::Categories(list) => {
            if c.stage == Stage::NearbyCategories {
                lemma_found(c, u, true, list@);
            }
            if c.stage == Stage::Categories {
                lemma_found(c, u, false, list@);
            }
        },
        Event::Counts(counts) => {
            let d = Situation { categories: counted(c.categories, counts@), ..c };
            if c.stage == Stage::NearbyCounts {
                lemma_listed(c, d, u, true);
            }
            if c.stage == Stage::CategoryCounts {
                lemma_listed(c, d, u, false);
            }
        },
        Event::Files(files) => {
            if c.stage == Stage::Files {
                lemma_delivered(c, u, files@);
            }
        },
        _ => {},
    }
    if let Some(m) = u.message {
        let command = match m.text {
            Some(t) => t@,
            None => ""@,
        };
        lemma_intended(c, u, parser::intent_of(command), config);
    }
}

/// A step of the handling of a callback.
proof fn lemma_callback_step(c: Situation, u: Update, config: Config, e: Event)
    requires
        part_of(c.stage) == Part::Callback,
    ensures
        sound(c, u, callback_turn(c, u, config, e), steps_left(c.stage)),
{
    lemma_inline_begins(c, u);
    lemma_category_told(c, c, u);
    lemma_category_files(c, u);
    lemma_subcategories(c, u);
    if let Stage::CallbackStored { view, render } = c.stage {
        lemma_menu_shown(c, c, u, config, view, render);
    }
    match e {
        Event::Loaded(p) => {
            lemma_callback_loaded(c, u, config, p@);
        },
        Event::FilePage(page) => {
            lemma_file_page(c, u, page);
        },
        Event::CategoryPage(page) => {
            lemma_category_page(c, u, page);
        },
        Event::File(file) => {
            lemma_file_taken(c, u, config, file);
        },
        Event::Category(category) => {
            lemma_category_taken(c, u, category);
        },
        Event::Claims(html) => {
            let category = CategoryInfo { wikidata_claims_html: Some(html), ..c.category };
            lemma_category_told(c, Situation { category, ..c }, u);
        },
        _ => {},
    }
}

/// A step.
proof fn lemma_step(c: Situation, u: Update, config: Config, e: Event)
    requires
        c.stage != Stage::Over,
    ensures
        sound(c, u, next(c, u, config, e), steps_left(c.stage)),
{
    match part_of(c.stage) {
        Part::Message => {
            lemma_message_step(c, u, config, e);
        },
        Part::Callback => {
            lemma_callback_step(c, u, config, e);
        },
        Part::Inline => {},
        Part::Nothing => {},
    }
}

/// Every step brings the handling closer to its end, whatever the last action gave.
pub proof fn law_conversation_ends(c: Situation, u: Update, config: Config, e: Event)
    requires
        c.stage != Stage::Over,
    ensures
        steps_left(next(c, u, config, e).0.stage) < steps_left(c.stage),
{
    lemma_step(c, u, config, e);
}

/// The handling starts with the chat and the user of the first part of the update.
pub proof fn law_start_is_addressed(c: Situation, u: Update, config: Config)
    ensures
        addressed(begin_update(c, u, config).0, u),
        reaches_only(begin_update(c, u, config).1, begin_update(c, u, config).0),
{
}

/// Every step answers in the chat that the update came from, and reads and stores the preferences
/// of the user who sent it only.
pub proof fn law_steps_stay_addressed(c: Situation, u: Update, config: Config, e: Event)
    requires
        addressed(c, u),
    ensures
        addressed(next(c, u, config, e).0, u),
        reaches_only(next(c, u, config, e).1, next(c, u, config, e).0),
{
    if c.stage != Stage::Over {
        lemma_step(c, u, config, e);
    }
}

/// True of the stages whose action may fail without ending the handling.
pub open spec fn tolerates_failure(stage: Stage) -> bool {
    match stage {
        Stage::MessageTyping
        | Stage::Stats
        | Stage::CallbackAnswer
        | Stage::CallbackTyping
        | Stage::Claims
        | Stage::InlineAnswer => true,
        _ => false,
    }
}

/// A failed action ends the handling with its message, unless it only showed something or fetched
/// something that can be left out.
pub proof fn law_failures_end(c: Situation, u: Update, config: Config, reason: String)
    requires
        c.stage != Stage::Over,
        !tolerates_failure(c.stage),
    ensures
        next(c, u, config, Event::Failed(reason)) == failure(c, reason@),
{
}

/// An inline query is answered whatever happens to the search, unless it fails: after a timeout
/// with an empty page.
pub proof fn law_slow_inline_query_is_answered(c: Situation, u: Update, config: Config)
    requires
        addressed(c, u),
        c.stage == Stage::InlinePreferences || c.stage == Stage::InlineFiles,
    ensures
        next(c, u, config, Event::TimedOut).1 == (ActionView::AnswerInline {
            query_id: (u.inline_query->0).id@,
            results: seq![],
            cache_seconds: 1,
            is_personal: false,
            next_offset: None,
        }),
{
}

} // verus!
