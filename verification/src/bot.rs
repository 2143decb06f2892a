//! What the bot reads in requests and callbacks, and how much it asks for.

use vstd::prelude::*;
use vstd::string::*;
use crate::config::Config;
use crate::escaping;
use crate::models::{
    DeliveryMode, FileHit, FileType, Preferences, SearchQuery, normalize_inline_result_count,
};
use crate::models;
use crate::numbers;
use crate::pagination::BUTTON_PAGE_SIZE;
use crate::telegram::{CallbackQuery, Message, Update};
use crate::telegram;
use crate::text;

verus! {

/// Number of results that are asked for where they are shown in pages.
pub const PAGINATED_RESULT_LIMIT: usize = 60;

/// Milliseconds in which an inline query is answered.
pub const INLINE_QUERY_TIMEOUT_MILLIS: u64 = 6_000;

/// Number of results that an inline query can reach.
pub const INLINE_MAX_LOOKUP_RESULTS: usize = 151;

/// Seconds for which a repeated update is ignored.
pub const UPDATE_IDEMPOTENCY_SECONDS: i64 = 86_400;

/// Seconds for which a repeated press of a button is ignored.
pub const CALLBACK_ACTION_IDEMPOTENCY_SECONDS: i64 = 30;

/// The path of the test endpoint.
pub const TEST_ENDPOINT_PATH: &'static str = "/__test";

// Requests.

/// What is done with a request.
#[derive(Clone, Copy, Debug, PartialEq, Eq, Structural)]
pub enum Entry {
    /// It does not carry the secret, and is refused.
    Refuse,
    /// The test endpoint answers it.
    Test,
    /// It carries an update.
    Webhook,
}

/// What is done with a request to a path that carries a secret, or none.
pub open spec fn entry_of(config: Config, path: Seq<char>, secret: Option<Seq<char>>) -> Entry {
    let given = match secret {
        Some(s) => s,
        None => ""@,
    };
    if config.telegram_webhook_secret is Some && given != config.telegram_webhook_secret->0@ {
        Entry::Refuse
    } else if config.enable_test_endpoint && path == TEST_ENDPOINT_PATH@ {
        Entry::Test
    } else {
        Entry::Webhook
    }
}

/// Verifies Telegram's webhook secret when one is configured, and tells the test endpoint from
/// the webhook.
pub fn choose_entry(config: &Config, path: &str, secret: Option<&str>) -> (r: Entry)
    ensures
        r == entry_of(*config, path@, text::opt_slice(secret)),
{
    let given = match secret {
        Some(s) => s,
        None => "",
    };
    if let Some(expected) = &config.telegram_webhook_secret {
        if !text::same(given, expected.as_str()) {
            return Entry::Refuse;
        }
    }
    if config.enable_test_endpoint && text::same(path, TEST_ENDPOINT_PATH) {
        Entry::Test
    } else {
        Entry::Webhook
    }
}

/// A request that does not name the secret of the webhook is refused, wherever it goes; one that
/// names it is not.
pub proof fn law_secret_is_asked_for(config: Config, path: Seq<char>, secret: Option<Seq<char>>)
    requires
        config.telegram_webhook_secret is Some,
        (config.telegram_webhook_secret->0)@.len() > 0,
    ensures
        entry_of(config, path, secret) == Entry::Refuse <==> secret != Some(
            (config.telegram_webhook_secret->0)@,
        ),
{
    reveal_strlit("");
}

/// The value of the first parameter `q` of a query string, from a part on.
pub open spec fn parameter_q(parts: Seq<Seq<char>>) -> Option<Seq<char>>
    decreases parts.len(),
{
    if parts.len() == 0 {
        None
    } else {
        match text::cut_first(parts[0], '=') {
            Some((name, value)) => if name == "q"@ {
                Some(value)
            } else {
                parameter_q(parts.skip(1))
            },
            None => parameter_q(parts.skip(1)),
        }
    }
}

/// The search that the test endpoint is asked for.
pub open spec fn tested_query(query: Seq<char>) -> Seq<char> {
    match parameter_q(text::parts(query, '&')) {
        Some(value) => match escaping::percent_decoded(value) {
            Some(decoded) => decoded,
            None => value,
        },
        None => "jpg Minsk"@,
    }
}

/// Reads the search from the query string of a request to the test endpoint.
pub fn test_endpoint_query(query: &str) -> (r: String)
    ensures
        r@ == tested_query(query@),
{
    let parts = text::split(query, '&');
    let ghost all = text::texts(parts@);
    let mut i: usize = 0;
    assert(all.skip(0) =~= all);
    while i < parts.len()
        invariant
            i <= parts.len(),
            all == text::texts(parts@),
            all == text::parts(query@, '&'),
            parameter_q(all) == parameter_q(all.skip(i as int)),
        decreases parts.len() - i,
    {
        proof {
            assert(all.skip(i as int)[0] == all[i as int]);
            assert(all.skip(i as int).skip(1) =~= all.skip(i + 1));
        }
        if let Some((name, value)) = text::split_once(parts[i].as_str(), '=') {
            if text::same(name.as_str(), "q") {
                return match escaping::url_decode(value.as_str()) {
                    Some(decoded) => decoded,
                    None => value,
                };
            }
        }
        i += 1;
    }
    "jpg Minsk".to_owned()
}

/// The kind of an update, as it is logged.
pub open spec fn kind_of(update: Update) -> Seq<char> {
    if update.callback_query is Some {
        "callback_query"@
    } else if update.inline_query is Some {
        "inline_query"@
    } else if update.message is Some {
        "message"@
    } else {
        "unknown"@
    }
}

/// Returns the kind of an update, as it is logged.
pub fn update_kind(update: &Update) -> (r: &'static str)
    ensures
        r@ == kind_of(*update),
{
    if update.callback_query.is_some() {
        "callback_query"
    } else if update.inline_query.is_some() {
        "inline_query"
    } else if update.message.is_some() {
        "message"
    } else {
        "unknown"
    }
}

// Repeated updates.

/// One idempotency reservation key for a Telegram update.
#[derive(Debug, PartialEq, Eq)]
pub struct IdempotencyKey {
    /// DynamoDB/RAM key.
    pub key: String,
    /// How long duplicates should be suppressed.
    pub retention_seconds: i64,
}

/// The value of `IdempotencyKey`.
pub struct KeyView {
    pub key: Seq<char>,
    pub retention_seconds: i64,
}

impl View for IdempotencyKey {
    type V = KeyView;

    open spec fn view(&self) -> KeyView {
        KeyView { key: self.key@, retention_seconds: self.retention_seconds }
    }
}

/// The values of keys.
pub open spec fn keys_view(keys: Seq<IdempotencyKey>) -> Seq<KeyView> {
    Seq::new(keys.len(), |i: int| keys[i]@)
}

/// The key of an update.
pub open spec fn update_key(update_id: i64) -> Seq<char> {
    "TELEGRAM_UPDATE#"@ + numbers::signed_numeral(update_id as int)
}

/// The key of a press of a button.
pub open spec fn action_key(
    user_id: i64,
    chat_id: i64,
    message_id: Option<i64>,
    data: Seq<char>,
) -> Seq<char> {
    "TELEGRAM_CALLBACK_ACTION#"@ + numbers::signed_numeral(user_id as int) + "#"@
        + numbers::signed_numeral(chat_id as int) + "#"@ + (match message_id {
        Some(id) => numbers::signed_numeral(id as int),
        None => "unknown"@,
    }) + "#"@ + data
}

/// True of the data of a button that opens a file or a category.
pub open spec fn opens_something(data: Seq<char>) -> bool {
    match text::cut_first(data, ':') {
        Some((kind, _)) => kind == "file"@ || kind == "cat"@,
        None => false,
    }
}

/// The key of a callback, where it has one.
pub open spec fn callback_keys(callback: Option<CallbackQuery>) -> Seq<KeyView> {
    match callback {
        Some(c) => match (c.data, c.message) {
            (Some(data), Some(message)) => if opens_something(data@) {
                seq![
                    KeyView {
                        key: action_key(c.from.id, message.chat.id, message.message_id, data@),
                        retention_seconds: CALLBACK_ACTION_IDEMPOTENCY_SECONDS,
                    },
                ]
            } else {
                seq![]
            },
            _ => seq![],
        },
        None => seq![],
    }
}

/// The keys of an update.
pub open spec fn keys_of(update: Update) -> Seq<KeyView> {
    (match update.update_id {
        Some(id) => seq![
            KeyView { key: update_key(id), retention_seconds: UPDATE_IDEMPOTENCY_SECONDS },
        ],
        None => seq![],
    }) + callback_keys(update.callback_query)
}

/// Returns true for the data of a button that opens a file or a category.
fn data_opens_something(data: &str) -> (r: bool)
    ensures
        r == opens_something(data@),
{
    match text::split_once(data, ':') {
        Some((kind, _)) => text::same(kind.as_str(), "file") || text::same(kind.as_str(), "cat"),
        None => false,
    }
}

/// Writes the key of a press of a button.
fn callback_action_key(user_id: i64, message: &Message, data: &str) -> (r: String)
    ensures
        r@ == action_key(user_id, message.chat.id, message.message_id, data@),
{
    let message_id = match message.message_id {
        Some(id) => numbers::signed_decimal(id),
        None => "unknown".to_owned(),
    };
    "TELEGRAM_CALLBACK_ACTION#".to_owned().concat(numbers::signed_decimal(user_id).as_str()).concat(
        "#",
    ).concat(numbers::signed_decimal(message.chat.id).as_str()).concat("#").concat(
        message_id.as_str(),
    ).concat("#").concat(data)
}

/// Adds a key.
fn push_key(keys: &mut Vec<IdempotencyKey>, key: String, retention_seconds: i64)
    ensures
        keys_view(final(keys)@) == keys_view(old(keys)@).push(
            (KeyView { key: key@, retention_seconds }),
        ),
{
    let ghost was = keys@;
    keys.push(IdempotencyKey { key, retention_seconds });
    assert(keys_view(keys@) =~= keys_view(was).push((KeyView { key: key@, retention_seconds })));
}

/// Returns idempotency keys that suppress webhook retries and rapid file-button double clicks.
pub fn idempotency_keys(update: &Update) -> (r: Vec<IdempotencyKey>)
    ensures
        keys_view(r@) == keys_of(*update),
{
    let mut keys: Vec<IdempotencyKey> = Vec::new();
    assert(keys_view(keys@) =~= seq![]);
    if let Some(id) = update.update_id {
        push_key(
            &mut keys,
            "TELEGRAM_UPDATE#".to_owned().concat(numbers::signed_decimal(id).as_str()),
            UPDATE_IDEMPOTENCY_SECONDS,
        );
    }
    if let Some(callback) = &update.callback_query {
        if let Some(data) = &callback.data {
            if let Some(message) = &callback.message {
                if data_opens_something(data.as_str()) {
                    push_key(
                        &mut keys,
                        callback_action_key(callback.from.id, message, data.as_str()),
                        CALLBACK_ACTION_IDEMPOTENCY_SECONDS,
                    );
                }
            }
        }
    }
    assert(keys_view(keys@) =~= keys_of(*update));
    keys
}

/// Returns true when an update is handled further after an attempt to reserve one of its keys: a
/// key that was reserved before stops it, a failed attempt does not.
pub fn proceeds_after_reservation(reserved: &Result<bool, String>) -> (r: bool)
    ensures
        r == (*reserved != Ok::<bool, String>(false)),
{
    match reserved {
        Ok(free) => *free,
        Err(_) => true,
    }
}

// Limits.

/// The number of files that a search asks for.
pub open spec fn file_limit(q: models::QueryView, p: models::PreferencesModel) -> usize {
    if p.pagination_enabled && p.delivery_mode == DeliveryMode::Buttons && !q.links_flag
        && !q.image_previews_flag {
        PAGINATED_RESULT_LIMIT
    } else {
        BUTTON_PAGE_SIZE
    }
}

/// Returns the file search limit needed by the selected Telegram delivery mode.
pub fn file_result_limit(query: &SearchQuery, preferences: &Preferences) -> (r: usize)
    ensures
        r == file_limit(query@, preferences@),
{
    if preferences.pagination_enabled && preferences.delivery_mode == DeliveryMode::Buttons
        && !query.links_flag && !query.image_previews_flag {
        PAGINATED_RESULT_LIMIT
    } else {
        BUTTON_PAGE_SIZE
    }
}

/// The number of categories that are asked for.
pub open spec fn category_limit(p: models::PreferencesModel) -> usize {
    if p.pagination_enabled {
        PAGINATED_RESULT_LIMIT
    } else {
        BUTTON_PAGE_SIZE
    }
}

/// Returns the category search limit needed by the category button renderer.
pub fn category_result_limit(preferences: &Preferences) -> (r: usize)
    ensures
        r == category_limit(preferences@),
{
    if preferences.pagination_enabled {
        PAGINATED_RESULT_LIMIT
    } else {
        BUTTON_PAGE_SIZE
    }
}

/// The number of files that are asked for where a category is opened.
pub open spec fn category_file_limit(p: models::PreferencesModel) -> usize {
    if p.category_file_buttons {
        category_limit(p)
    } else {
        BUTTON_PAGE_SIZE
    }
}

/// Returns the file limit needed after a category button click.
pub fn category_file_result_limit(preferences: &Preferences) -> (r: usize)
    ensures
        r == category_file_limit(preferences@),
{
    if preferences.category_file_buttons {
        category_result_limit(preferences)
    } else {
        BUTTON_PAGE_SIZE
    }
}

// Callbacks.

/// The kind of list, the token and the page that the data of a button goes to.
pub open spec fn page_asked(data: Seq<char>) -> Option<(Seq<char>, Seq<char>, nat)> {
    let parts = text::parts(data, ':');
    if parts.len() == 4 && parts[0] == "pg"@ {
        match numbers::unsigned_value(parts[3], usize::MAX as nat) {
            Some(n) => Some((parts[1], parts[2], n)),
            None => None,
        }
    } else {
        None
    }
}

/// The value of what the data of a button goes to.
pub open spec fn page_view(page: Option<(String, String, usize)>) -> Option<
    (Seq<char>, Seq<char>, nat),
> {
    match page {
        Some((kind, token, n)) => Some((kind@, token@, n as nat)),
        None => None,
    }
}

/// Parses a compact pagination callback payload.
pub fn parse_pagination_callback(data: &str) -> (r: Option<(String, String, usize)>)
    ensures
        page_view(r) == page_asked(data@),
{
    let parts = text::split(data, ':');
    let ghost all = text::texts(parts@);
    assert(all.len() == parts@.len());
    if parts.len() != 4 {
        return None;
    }
    assert(all[0] == parts@[0]@ && all[1] == parts@[1]@ && all[2] == parts@[2]@ && all[3]
        == parts@[3]@);
    if !text::same(parts[0].as_str(), "pg") {
        return None;
    }
    match numbers::parse_unsigned(parts[3].as_str(), usize::MAX as u64) {
        Some(n) => Some((parts[1].clone(), parts[2].clone(), n as usize)),
        None => None,
    }
}

/// The number behind a prefix of the data of a button.
pub open spec fn number_behind(data: Seq<char>, prefix: Seq<char>) -> Option<nat> {
    if text::begins(data, prefix) {
        numbers::unsigned_value(data.skip(prefix.len() as int), u64::MAX as nat)
    } else {
        None
    }
}

/// Parses the number behind a prefix of the data of a button.
pub fn parse_number_behind(data: &str, prefix: &str) -> (r: Option<u64>)
    ensures
        match (r, number_behind(data@, prefix@)) {
            (Some(n), Some(m)) => n == m,
            (None, None) => true,
            _ => false,
        },
{
    match text::strip_prefix(data, prefix) {
        Some(rest) => numbers::parse_unsigned(rest.as_str(), u64::MAX),
        None => None,
    }
}

// Inline queries.

/// The offset that a text stands for: zero where it is none, or too large.
pub open spec fn inline_offset(s: Seq<char>) -> nat {
    match numbers::unsigned_value(s, usize::MAX as nat) {
        Some(n) => if n < INLINE_MAX_LOOKUP_RESULTS {
            n
        } else {
            0
        },
        None => 0,
    }
}

/// Parses Telegram inline pagination offsets, defaulting safely to the first page.
pub fn parse_inline_offset(offset: &str) -> (r: usize)
    ensures
        r == inline_offset(offset@),
{
    match numbers::parse_unsigned(offset, usize::MAX as u64) {
        Some(n) => if n < INLINE_MAX_LOOKUP_RESULTS as u64 {
            n as usize
        } else {
            0
        },
        None => 0,
    }
}

/// The number of results that an inline query asks for: those up to its page, and one more.
pub open spec fn inline_limit(offset: nat, count: usize) -> nat {
    let n = offset + models::inline_count(count) + 1;
    if n <= INLINE_MAX_LOOKUP_RESULTS {
        n as nat
    } else {
        INLINE_MAX_LOOKUP_RESULTS as nat
    }
}

/// Returns how many Commons results are needed to render one inline page plus lookahead.
pub fn inline_lookup_limit(offset: usize, inline_result_count: usize) -> (r: usize)
    ensures
        r == inline_limit(offset as nat, inline_result_count),
{
    let page_size: usize = normalize_inline_result_count(inline_result_count);
    proof {
        lemma_inline_count(inline_result_count);
    }
    if offset >= INLINE_MAX_LOOKUP_RESULTS {
        return INLINE_MAX_LOOKUP_RESULTS;
    }
    if offset + page_size + 1 <= INLINE_MAX_LOOKUP_RESULTS {
        offset + page_size + 1
    } else {
        INLINE_MAX_LOOKUP_RESULTS
    }
}

/// A number of inline results is one of three.
pub proof fn lemma_inline_count(n: usize)
    ensures
        1 <= models::inline_count(n) <= 50,
{
    if models::INLINE_RESULT_COUNT_OPTIONS@.contains(n) {
        let i = choose|i: int|
            0 <= i < models::INLINE_RESULT_COUNT_OPTIONS@.len()
                && models::INLINE_RESULT_COUNT_OPTIONS@[i] == n;
        assert(i == 0 || i == 1 || i == 2);
    }
}

/// The files of an inline page.
pub open spec fn inline_page(files: Seq<FileHit>, offset: nat, count: usize) -> Seq<FileHit> {
    let end = offset + models::inline_count(count);
    if offset >= files.len() {
        seq![]
    } else if end >= files.len() {
        files.skip(offset as int)
    } else {
        files.subrange(offset as int, end)
    }
}

/// The offset of the page behind an inline page, where there is one.
pub open spec fn next_inline_offset(total: nat, offset: nat, count: usize) -> Option<Seq<char>> {
    let end = offset + models::inline_count(count);
    if total > end {
        Some(numbers::numeral(end as nat))
    } else {
        None
    }
}

/// Slices one Telegram inline result page and returns the next offset when available.
pub fn inline_result_page(files: &Vec<FileHit>, offset: usize, inline_result_count: usize) -> (r: (
    Vec<FileHit>,
    Option<String>,
))
    ensures
        r.0@ == inline_page(files@, offset as nat, inline_result_count),
        text::opt_text(r.1) == next_inline_offset(
            files@.len(),
            offset as nat,
            inline_result_count,
        ),
{
    let page_size: usize = normalize_inline_result_count(inline_result_count);
    proof {
        lemma_inline_count(inline_result_count);
    }
    let mut page: Vec<FileHit> = Vec::new();
    if offset >= files.len() {
        return (page, None);
    }
    let left: usize = files.len() - offset;
    let n: usize = if left > page_size {
        page_size
    } else {
        left
    };
    let mut i: usize = 0;
    while i < n
        invariant
            i <= n <= files.len() - offset,
            page@ == files@.subrange(offset as int, offset + i),
        decreases n - i,
    {
        page.push(files[offset + i].clone());
        assert(page@ =~= files@.subrange(offset as int, offset + i + 1));
        i += 1;
    }
    assert(page@ =~= inline_page(files@, offset as nat, inline_result_count));
    if left > page_size {
        (page, Some(numbers::decimal((offset + page_size) as u64)))
    } else {
        (page, None)
    }
}

/// True where an inline query ranks its results by place.
pub open spec fn place_applies(q: models::QueryView) -> bool {
    &&& q.user is None
    &&& q.category is None
    &&& q.date is None
    &&& q.extension is None
    &&& q.size_filters.len() == 0
    &&& (q.file_type is None || q.file_type == Some(FileType::Images))
}

/// Returns true when inline location should rank results by nearby coordinates.
pub fn inline_location_applies(query: &SearchQuery) -> (r: bool)
    ensures
        r == place_applies(query@),
{
    let images = match query.file_type {
        None => true,
        Some(t) => t == FileType::Images,
    };
    query.user.is_none() && query.category.is_none() && query.date.is_none()
        && query.extension.is_none() && query.size_filters.len() == 0 && images
}

/// True of the message of an error that says that an inline query is stale.
pub open spec fn says_expired(message: Seq<char>) -> bool {
    ||| text::holds(message, "query is too old"@)
    ||| text::holds(message, "response timeout expired"@)
    ||| text::holds(message, "query ID is invalid"@)
}

/// Detects Telegram's expected error for inline query IDs that are already stale.
pub fn is_expired_inline_query_error(message: &str) -> (r: bool)
    ensures
        r == says_expired(message@),
{
    text::contains(message, "query is too old") || text::contains(
        message,
        "response timeout expired",
    ) || text::contains(message, "query ID is invalid")
}

// Laws.

/// The pages of an inline answer follow each other: the offset that one gives is where it ended,
/// and a full page stands before it.
pub proof fn law_inline_pages_follow(files: Seq<FileHit>, offset: nat, count: usize)
    requires
        next_inline_offset(files.len(), offset, count) is Some,
    ensures
        ({
            let end = offset + inline_page(files, offset, count).len();
            &&& inline_page(files, offset, count).len() == models::inline_count(count)
            &&& next_inline_offset(files.len(), offset, count) == Some(numbers::numeral(end))
            &&& end < files.len()
        }),
{
}

/// An inline lookup reaches the page that is asked for and one result behind it, as long as the
/// results can be reached at all.
pub proof fn law_inline_lookup_reaches_next(offset: nat, count: usize)
    ensures
        inline_limit(offset, count) <= INLINE_MAX_LOOKUP_RESULTS,
        offset + models::inline_count(count) < INLINE_MAX_LOOKUP_RESULTS ==> inline_limit(
            offset,
            count,
        ) > offset + models::inline_count(count),
{
}

/// A numeral is read back as its number, and holds no colon.
proof fn lemma_numeral_read(n: nat, max: nat)
    requires
        n <= max,
    ensures
        numbers::unsigned_value(numbers::numeral(n), max) == Some(n),
        !numbers::numeral(n).contains(':'),
{
    numbers::law_numeral_round_trip(n);
    let s = numbers::numeral(n);
    assert(text::is_digit(s[0]));
    if s.contains(':') {
        let i = choose|i: int| 0 <= i < s.len() && s[i] == ':';
        assert(text::is_digit(s[i]));
    }
}

/// A button that goes to a page leads to that page of its list.
pub proof fn law_page_buttons_lead_to_pages(kind: Seq<char>, token: Seq<char>, page: nat)
    requires
        !kind.contains(':'),
        !token.contains(':'),
        page <= usize::MAX,
    ensures
        page_asked(telegram::page_data(kind, token, page)) == Some((kind, token, page)),
{
    reveal_strlit("pg:");
    reveal_strlit("pg");
    reveal_strlit(":");
    let n = numbers::numeral(page);
    lemma_numeral_read(page, usize::MAX as nat);
    let c = seq![':'];
    let data = telegram::page_data(kind, token, page);
    assert(data =~= "pg"@ + c + (kind + c + (token + c + n)));
    assert(!"pg"@.contains(':'));
    text::lemma_first_part("pg"@, ':', kind + c + (token + c + n));
    text::lemma_first_part(kind, ':', token + c + n);
    text::lemma_first_part(token, ':', n);
    text::lemma_one_part(n, ':');
    assert(text::parts(data, ':') =~= seq!["pg"@, kind, token, n]);
}

/// The token that a digest gives holds no colon.
pub proof fn law_tokens_hold_no_colon(digest: Seq<u8>)
    requires
        digest.len() >= 8,
    ensures
        !escaping::hex_text(digest).take(16).contains(':'),
{
    let token = escaping::hex_text(digest).take(16);
    if token.contains(':') {
        let i = choose|i: int| 0 <= i < token.len() && token[i] == ':';
        assert(token[i] == escaping::hex_text(digest)[i]);
        assert(escaping::lower_hex((digest[i / 2] / 16) as int) != ':');
        assert(escaping::lower_hex((digest[i / 2] % 16) as int) != ':');
    }
}

/// A button that opens a file or a category leads to its page, and to no list.
pub proof fn law_opening_buttons_lead_to_pages(prefix: Seq<char>, page_id: u64)
    requires
        prefix == "file:"@ || prefix == "cat:"@,
    ensures
        ({
            let data = prefix + numbers::numeral(page_id as nat);
            &&& number_behind(data, prefix) == Some(page_id as nat)
            &&& page_asked(data) is None
            &&& opens_something(data)
        }),
{
    reveal_strlit("file:");
    reveal_strlit("cat:");
    reveal_strlit("file");
    reveal_strlit("cat");
    let n = numbers::numeral(page_id as nat);
    let data = prefix + n;
    let kind = prefix.drop_last();
    lemma_numeral_read(page_id as nat, u64::MAX as nat);
    assert(data.take(prefix.len() as int) =~= prefix);
    assert(data.skip(prefix.len() as int) =~= n);
    assert(!kind.contains(':'));
    assert(data =~= kind + seq![':'] + n);
    text::lemma_first_part(kind, ':', n);
    text::lemma_one_part(n, ':');
    assert(text::parts(data, ':') =~= seq![kind, n]);
    text::lemma_position(data, ':', 0);
    let i = text::position(data, ':', 0);
    assert(data[kind.len() as int] == ':');
    if i < kind.len() {
        assert(data[i] == kind[i]);
        assert(kind.contains(kind[i]));
    }
    assert(i == kind.len());
    assert(data.take(i) =~= kind);
    assert(prefix == "file:"@ ==> kind =~= "file"@);
    assert(prefix == "cat:"@ ==> kind =~= "cat"@);
}

/// Two presses of buttons that open something have the same key only where the data is the same,
/// when they come from the same user and message.
pub proof fn law_action_keys_differ(
    user_id: i64,
    chat_id: i64,
    message_id: Option<i64>,
    a: Seq<char>,
    b: Seq<char>,
)
    requires
        action_key(user_id, chat_id, message_id, a) == action_key(user_id, chat_id, message_id, b),
    ensures
        a == b,
{
    let before = "TELEGRAM_CALLBACK_ACTION#"@ + numbers::signed_numeral(user_id as int) + "#"@
        + numbers::signed_numeral(chat_id as int) + "#"@ + (match message_id {
        Some(id) => numbers::signed_numeral(id as int),
        None => "unknown"@,
    }) + "#"@;
    assert((before + a).skip(before.len() as int) =~= a);
    assert((before + b).skip(before.len() as int) =~= b);
}

} // verus!
