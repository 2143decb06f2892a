//! Laws on what is kept: stored preferences, reservations, caches, and lists of files.

use vstd::prelude::*;
use crate::commons_cache;
use crate::commons_cache::DiskCacheEntry;
use crate::idempotency;
use crate::laws::formats;
use crate::loading;
use crate::loading::LoadKey;
use crate::models;
use crate::models::{DeliveryMode, DocumentPageMode, FileHit, FileType};
use crate::numbers;
use crate::ordering;
use crate::preferences;
use crate::preferences::AttributeView;
use crate::previews;
use crate::previews::{PreviewView, Progress};
use crate::telegram;

verus! {

// Preferences.

/// An attribute with just a truth value.
pub open spec fn flag_item(b: bool) -> AttributeView {
    AttributeView { s: None, n: None, boolean: Some(b), list: None }
}

/// An attribute with just a text.
pub open spec fn text_item(s: Seq<char>) -> AttributeView {
    AttributeView { s: Some(s), n: None, boolean: None, list: None }
}

/// An attribute with just a number.
pub open spec fn number_item(s: Seq<char>) -> AttributeView {
    AttributeView { s: None, n: Some(s), boolean: None, list: None }
}

/// An attribute with just a list.
pub open spec fn list_item(l: Seq<Option<Seq<char>>>) -> AttributeView {
    AttributeView { s: None, n: None, boolean: None, list: Some(l) }
}

/// The names of the attributes are told apart by their letters.
proof fn lemma_names()
    ensures
        "show_category_counts"@.len() == 20 && "show_category_counts"@[0] == 's',
        "delivery_mode"@.len() == 13 && "delivery_mode"@[0] == 'd',
        "file_type"@.len() == 9 && "file_type"@[0] == 'f',
        "extension"@.len() == 9 && "extension"@[0] == 'e',
        "favorite_categories"@.len() == 19 && "favorite_categories"@[0] == 'f',
        "blacklist_categories"@.len() == 20 && "blacklist_categories"@[0] == 'b',
        "blacklist_uploaders"@.len() == 19 && "blacklist_uploaders"@[0] == 'b',
        "show_sha1"@.len() == 9 && "show_sha1"@[0] == 's',
        "show_file_size"@.len() == 14 && "show_file_size"@[0] == 's',
        "show_preview_metadata"@.len() == 21 && "show_preview_metadata"@[0] == 's',
        "pdf_mode"@.len() == 8 && "pdf_mode"@[0] == 'p',
        "djvu_mode"@.len() == 9 && "djvu_mode"@[0] == 'd',
        "pagination_enabled"@.len() == 18 && "pagination_enabled"@[0] == 'p',
        "rich_image_previews"@.len() == 19 && "rich_image_previews"@[0] == 'r',
        "category_file_buttons"@.len() == 21 && "category_file_buttons"@[0] == 'c',
        "inline_result_count"@.len() == 19 && "inline_result_count"@[0] == 'i',
{
    reveal_strlit("show_category_counts");
    reveal_strlit("delivery_mode");
    reveal_strlit("file_type");
    reveal_strlit("extension");
    reveal_strlit("favorite_categories");
    reveal_strlit("blacklist_categories");
    reveal_strlit("blacklist_uploaders");
    reveal_strlit("show_sha1");
    reveal_strlit("show_file_size");
    reveal_strlit("show_preview_metadata");
    reveal_strlit("pdf_mode");
    reveal_strlit("djvu_mode");
    reveal_strlit("pagination_enabled");
    reveal_strlit("rich_image_previews");
    reveal_strlit("category_file_buttons");
    reveal_strlit("inline_result_count");
}

/// An attribute in front of others is the one of its name, and hides no other.
proof fn lemma_front(
    a: (Seq<char>, AttributeView),
    rest: Seq<(Seq<char>, AttributeView)>,
    name: Seq<char>,
)
    ensures
        preferences::attribute(seq![a] + rest, name) == (if a.0 == name {
            Some(a.1)
        } else {
            preferences::attribute(rest, name)
        }),
{
    let item = seq![a] + rest;
    assert(item[0] == a);
    assert(item.skip(1) =~= rest);
}

proof fn lemma_fronts(a: (Seq<char>, AttributeView), rest: Seq<(Seq<char>, AttributeView)>)
    ensures
        preferences::attribute(seq![a] + rest, "show_category_counts"@) == (if a.0 == "show_category_counts"@ {
            Some(a.1)
        } else {
            preferences::attribute(rest, "show_category_counts"@)
        }),
        preferences::attribute(seq![a] + rest, "delivery_mode"@) == (if a.0 == "delivery_mode"@ {
            Some(a.1)
        } else {
            preferences::attribute(rest, "delivery_mode"@)
        }),
        preferences::attribute(seq![a] + rest, "file_type"@) == (if a.0 == "file_type"@ {
            Some(a.1)
        } else {
            preferences::attribute(rest, "file_type"@)
        }),
        preferences::attribute(seq![a] + rest, "extension"@) == (if a.0 == "extension"@ {
            Some(a.1)
        } else {
            preferences::attribute(rest, "extension"@)
        }),
        preferences::attribute(seq![a] + rest, "favorite_categories"@) == (if a.0 == "favorite_categories"@ {
            Some(a.1)
        } else {
            preferences::attribute(rest, "favorite_categories"@)
        }),
        preferences::attribute(seq![a] + rest, "blacklist_categories"@) == (if a.0 == "blacklist_categories"@ {
            Some(a.1)
        } else {
            preferences::attribute(rest, "blacklist_categories"@)
        }),
        preferences::attribute(seq![a] + rest, "blacklist_uploaders"@) == (if a.0 == "blacklist_uploaders"@ {
            Some(a.1)
        } else {
            preferences::attribute(rest, "blacklist_uploaders"@)
        }),
        preferences::attribute(seq![a] + rest, "show_sha1"@) == (if a.0 == "show_sha1"@ {
            Some(a.1)
        } else {
            preferences::attribute(rest, "show_sha1"@)
        }),
        preferences::attribute(seq![a] + rest, "show_file_size"@) == (if a.0 == "show_file_size"@ {
            Some(a.1)
        } else {
            preferences::attribute(rest, "show_file_size"@)
        }),
        preferences::attribute(seq![a] + rest, "show_preview_metadata"@) == (if a.0 == "show_preview_metadata"@ {
            Some(a.1)
        } else {
            preferences::attribute(rest, "show_preview_metadata"@)
        }),
        preferences::attribute(seq![a] + rest, "pdf_mode"@) == (if a.0 == "pdf_mode"@ {
            Some(a.1)
        } else {
            preferences::attribute(rest, "pdf_mode"@)
        }),
        preferences::attribute(seq![a] + rest, "djvu_mode"@) == (if a.0 == "djvu_mode"@ {
            Some(a.1)
        } else {
            preferences::attribute(rest, "djvu_mode"@)
        }),
        preferences::attribute(seq![a] + rest, "pagination_enabled"@) == (if a.0 == "pagination_enabled"@ {
            Some(a.1)
        } else {
            preferences::attribute(rest, "pagination_enabled"@)
        }),
        preferences::attribute(seq![a] + rest, "rich_image_previews"@) == (if a.0 == "rich_image_previews"@ {
            Some(a.1)
        } else {
            preferences::attribute(rest, "rich_image_previews"@)
        }),
        preferences::attribute(seq![a] + rest, "category_file_buttons"@) == (if a.0 == "category_file_buttons"@ {
            Some(a.1)
        } else {
            preferences::attribute(rest, "category_file_buttons"@)
        }),
        preferences::attribute(seq![a] + rest, "inline_result_count"@) == (if a.0 == "inline_result_count"@ {
            Some(a.1)
        } else {
            preferences::attribute(rest, "inline_result_count"@)
        }),
{
    lemma_front(a, rest, "show_category_counts"@);
    lemma_front(a, rest, "delivery_mode"@);
    lemma_front(a, rest, "file_type"@);
    lemma_front(a, rest, "extension"@);
    lemma_front(a, rest, "favorite_categories"@);
    lemma_front(a, rest, "blacklist_categories"@);
    lemma_front(a, rest, "blacklist_uploaders"@);
    lemma_front(a, rest, "show_sha1"@);
    lemma_front(a, rest, "show_file_size"@);
    lemma_front(a, rest, "show_preview_metadata"@);
    lemma_front(a, rest, "pdf_mode"@);
    lemma_front(a, rest, "djvu_mode"@);
    lemma_front(a, rest, "pagination_enabled"@);
    lemma_front(a, rest, "rich_image_previews"@);
    lemma_front(a, rest, "category_file_buttons"@);
    lemma_front(a, rest, "inline_result_count"@);
}

/// A stored truth value is the preference of its name, and no other.
pub proof fn law_stored_flags(rest: Seq<(Seq<char>, AttributeView)>, b: bool)
    ensures
        preferences::preferences_of(seq![("show_category_counts"@, flag_item(b))] + rest) == (
        models::PreferencesModel { show_category_counts: b, ..preferences::preferences_of(rest) }),
        preferences::preferences_of(seq![("show_sha1"@, flag_item(b))] + rest) == (
        models::PreferencesModel { show_sha1: b, ..preferences::preferences_of(rest) }),
        preferences::preferences_of(seq![("show_file_size"@, flag_item(b))] + rest) == (
        models::PreferencesModel { show_file_size: b, ..preferences::preferences_of(rest) }),
        preferences::preferences_of(seq![("show_preview_metadata"@, flag_item(b))] + rest) == (
        models::PreferencesModel { show_preview_metadata: b, ..preferences::preferences_of(rest) }),
        preferences::preferences_of(seq![("pagination_enabled"@, flag_item(b))] + rest) == (
        models::PreferencesModel { pagination_enabled: b, ..preferences::preferences_of(rest) }),
        preferences::preferences_of(seq![("rich_image_previews"@, flag_item(b))] + rest) == (
        models::PreferencesModel { rich_image_previews: b, ..preferences::preferences_of(rest) }),
        preferences::preferences_of(seq![("category_file_buttons"@, flag_item(b))] + rest) == (
        models::PreferencesModel { category_file_buttons: b, ..preferences::preferences_of(rest) }),
{
    lemma_names();
    lemma_fronts(("show_category_counts"@, flag_item(b)), rest);
    lemma_fronts(("show_sha1"@, flag_item(b)), rest);
    lemma_fronts(("show_file_size"@, flag_item(b)), rest);
    lemma_fronts(("show_preview_metadata"@, flag_item(b)), rest);
    lemma_fronts(("pagination_enabled"@, flag_item(b)), rest);
    lemma_fronts(("rich_image_previews"@, flag_item(b)), rest);
    lemma_fronts(("category_file_buttons"@, flag_item(b)), rest);
}

/// A stored list is the preference of its name, and no other.
pub proof fn law_stored_lists(rest: Seq<(Seq<char>, AttributeView)>, l: Seq<Option<Seq<char>>>)
    ensures
        preferences::preferences_of(seq![("favorite_categories"@, list_item(l))] + rest) == (
        models::PreferencesModel {
            favorite_categories: preferences::present(l),
            ..preferences::preferences_of(rest)
        }),
        preferences::preferences_of(seq![("blacklist_categories"@, list_item(l))] + rest) == (
        models::PreferencesModel {
            blacklist_categories: preferences::present(l),
            ..preferences::preferences_of(rest)
        }),
        preferences::preferences_of(seq![("blacklist_uploaders"@, list_item(l))] + rest) == (
        models::PreferencesModel {
            blacklist_uploaders: preferences::present(l),
            ..preferences::preferences_of(rest)
        }),
{
    lemma_names();
    lemma_fronts(("favorite_categories"@, list_item(l)), rest);
    lemma_fronts(("blacklist_categories"@, list_item(l)), rest);
    lemma_fronts(("blacklist_uploaders"@, list_item(l)), rest);
}

/// Of a stored list the texts are loaded, in order.
pub proof fn law_stored_list_texts(l: Seq<Option<Seq<char>>>, t: Seq<char>)
    ensures
        preferences::present(l.push(Some(t))) == preferences::present(l).push(t),
        preferences::present(l.push(None)) == preferences::present(l),
        preferences::present(seq![]) == Seq::<Seq<char>>::empty(),
{
    assert(l.push(Some(t)).drop_last() =~= l);
    assert(l.push(None).drop_last() =~= l);
}

/// A stored word for a delivery mode gives that mode.
pub proof fn law_stored_mode(
    rest: Seq<(Seq<char>, AttributeView)>,
    w: Seq<char>,
    m: DeliveryMode,
)
    requires
        DeliveryMode::of_word(models::word(w)) == Some(m),
    ensures
        preferences::preferences_of(seq![("delivery_mode"@, text_item(w))] + rest).delivery_mode == m,
{
    lemma_front(("delivery_mode"@, text_item(w)), rest, "delivery_mode"@);
}

/// A stored word for a family gives that family.
pub proof fn law_stored_family(
    rest: Seq<(Seq<char>, AttributeView)>,
    w: Seq<char>,
    t: FileType,
)
    requires
        FileType::of_word(models::word(w)) == Some(t),
    ensures
        preferences::preferences_of(seq![("file_type"@, text_item(w))] + rest).file_type == t,
{
    lemma_front(("file_type"@, text_item(w)), rest, "file_type"@);
}

/// A stored word for a way of sending PDF files gives that.
pub proof fn law_stored_pdf_mode(
    rest: Seq<(Seq<char>, AttributeView)>,
    w: Seq<char>,
    d: DocumentPageMode,
)
    requires
        DocumentPageMode::of_word(models::word(w)) == Some(d),
    ensures
        preferences::preferences_of(seq![("pdf_mode"@, text_item(w))] + rest).pdf_mode == d,
{
    lemma_front(("pdf_mode"@, text_item(w)), rest, "pdf_mode"@);
}

/// A stored word for a way of sending DjVu files gives that.
pub proof fn law_stored_djvu_mode(
    rest: Seq<(Seq<char>, AttributeView)>,
    w: Seq<char>,
    d: DocumentPageMode,
)
    requires
        DocumentPageMode::of_word(models::word(w)) == Some(d),
    ensures
        preferences::preferences_of(seq![("djvu_mode"@, text_item(w))] + rest).djvu_mode == d,
{
    lemma_front(("djvu_mode"@, text_item(w)), rest, "djvu_mode"@);
}

/// A stored extension is the one to look for, and no other preference.
pub proof fn law_stored_extension(
    rest: Seq<(Seq<char>, AttributeView)>,
    w: Seq<char>,
)
    requires
        w.len() > 0,
    ensures
        preferences::preferences_of(seq![("extension"@, text_item(w))] + rest) == (
        models::PreferencesModel { extension: Some(w), ..preferences::preferences_of(rest) }),
{
    lemma_names();
    lemma_fronts(("extension"@, text_item(w)), rest);
}

/// A stored number of inline results is the one to show where it is offered, and fifty otherwise.
pub proof fn law_stored_count(rest: Seq<(Seq<char>, AttributeView)>, n: usize)
    ensures
        ({
            let item = seq![("inline_result_count"@, number_item(numbers::numeral(n as nat)))]
                + rest;
            let p = preferences::preferences_of(item);
            &&& n == 10 || n == 20 || n == 50 ==> p.inline_result_count == n
            &&& n != 10 && n != 20 && n != 50 ==> p.inline_result_count == 50
            &&& p == (models::PreferencesModel {
                inline_result_count: p.inline_result_count,
                ..preferences::preferences_of(rest)
            })
        }),
{
    lemma_names();
    formats::law_numbers_are_read_back(n as nat, usize::MAX as nat, seq![], 0);
    lemma_fronts(("inline_result_count"@, number_item(numbers::numeral(n as nat))), rest);
    let o = models::INLINE_RESULT_COUNT_OPTIONS@;
    assert(o[0] == 10 && o[1] == 20 && o[2] == 50);
}

/// What is stored holds every preference under its own name, and the user and the kind of the item
/// under the two names of the key.
pub proof fn law_stored_item(id: i64, p: models::PreferencesModel)
    ensures
        ({
            let item = preferences::item_of(id, p);
            &&& item.len() == 18
            &&& item.contains(
                ("pk"@, text_item("USER#"@ + numbers::signed_numeral(id as int))),
            )
            &&& item.contains(("sk"@, text_item("PREFERENCES"@)))
            &&& item.contains(("show_category_counts"@, flag_item(p.show_category_counts)))
            &&& item.contains(("show_sha1"@, flag_item(p.show_sha1)))
            &&& item.contains(("show_file_size"@, flag_item(p.show_file_size)))
            &&& item.contains(("show_preview_metadata"@, flag_item(p.show_preview_metadata)))
            &&& item.contains(("pagination_enabled"@, flag_item(p.pagination_enabled)))
            &&& item.contains(("rich_image_previews"@, flag_item(p.rich_image_previews)))
            &&& item.contains(("category_file_buttons"@, flag_item(p.category_file_buttons)))
            &&& item.contains(("delivery_mode"@, text_item(p.delivery_mode.pref_word())))
            &&& item.contains(("file_type"@, text_item(p.file_type.pref_word())))
            &&& item.contains(("pdf_mode"@, text_item(p.pdf_mode.pref_word())))
            &&& item.contains(("djvu_mode"@, text_item(p.djvu_mode.pref_word())))
            &&& item.contains(
                ("inline_result_count"@, number_item(numbers::numeral(p.inline_result_count as nat))),
            )
            &&& p.extension is Some ==> item.contains(("extension"@, text_item(p.extension->0)))
        }),
{
    reveal(preferences::item_of);
    let item = preferences::item_of(id, p);
    assert(item[0].0 == "pk"@ && item[1].0 == "sk"@);
    assert(item[2] == ("show_category_counts"@, flag_item(p.show_category_counts)));
    assert(item[9] == ("show_sha1"@, flag_item(p.show_sha1)));
    assert(item[10] == ("show_file_size"@, flag_item(p.show_file_size)));
    assert(item[11] == ("show_preview_metadata"@, flag_item(p.show_preview_metadata)));
    assert(item[12] == ("pagination_enabled"@, flag_item(p.pagination_enabled)));
    assert(item[15] == ("rich_image_previews"@, flag_item(p.rich_image_previews)));
    assert(item[16] == ("category_file_buttons"@, flag_item(p.category_file_buttons)));
    assert(item[3] == ("delivery_mode"@, text_item(p.delivery_mode.pref_word())));
    assert(item[4] == ("file_type"@, text_item(p.file_type.pref_word())));
    assert(item[13] == ("pdf_mode"@, text_item(p.pdf_mode.pref_word())));
    assert(item[14] == ("djvu_mode"@, text_item(p.djvu_mode.pref_word())));
    assert(item[17].0 == "inline_result_count"@ && item[5].0 == "extension"@);
}

/// Where nothing is stored the preferences are the ones a user starts with.
pub proof fn law_first_preferences()
    ensures
        ({
            let p = models::PreferencesModel::initial();
            &&& !p.show_category_counts && !p.show_sha1 && !p.show_file_size
            &&& p.show_preview_metadata && p.pagination_enabled
            &&& !p.rich_image_previews && !p.category_file_buttons
            &&& p.delivery_mode == DeliveryMode::Buttons && p.file_type == FileType::All
            &&& p.pdf_mode == DocumentPageMode::Original && p.djvu_mode
                == DocumentPageMode::Original
            &&& p.extension is None && p.inline_result_count == 50
            &&& p.favorite_categories.len() == 0 && p.blacklist_categories.len() == 0
                && p.blacklist_uploaders.len() == 0
        }),
{
}

// Reservations.

/// A reservation ends after its time, but not before a second is over, and never behind the last
/// moment there is.
pub proof fn law_reservation_ends(now: i64, seconds: i64)
    ensures
        seconds >= 1 && now + seconds <= i64::MAX ==> idempotency::expiry(now, seconds) == now
            + seconds,
        seconds < 1 && now < i64::MAX ==> idempotency::expiry(now, seconds) == now + 1,
        seconds >= 1 && now + seconds > i64::MAX ==> idempotency::expiry(now, seconds) == i64::MAX,
{
}

/// A reservation that is over is forgotten when another is made, and one that is not stays.
pub proof fn law_reservations_kept(
    seen: Map<Seq<char>, i64>,
    key: Seq<char>,
    other: Seq<char>,
    now: i64,
    ends: i64,
)
    requires
        other != key,
    ensures
        ({
            let after = idempotency::reserved(seen, key, now, ends);
            &&& seen.dom().contains(other) && seen[other] >= now ==> after.dom().contains(other)
                && after[other] == seen[other]
            &&& !(seen.dom().contains(other) && seen[other] >= now) ==> !after.dom().contains(other)
            &&& seen.dom().contains(key) && seen[key] >= now ==> after.dom().contains(key)
                && after[key] == seen[key]
            &&& !(seen.dom().contains(key) && seen[key] >= now) ==> after.dom().contains(key)
                && after[key] == ends
        }),
{
}

/// What is written for a reservation: its key, its kind, its state, and its end.
pub proof fn law_reservation_item(key: Seq<char>, status: Seq<char>, ends: i64)
    ensures
        ({
            let item = idempotency::reservation_attributes(key, status, ends);
            &&& item.len() == 4
            &&& item.contains(("pk"@, "S"@, key))
            &&& item.contains(("sk"@, "S"@, "IDEMPOTENCY"@))
            &&& item.contains(("status"@, "S"@, status))
            &&& item.contains(("expires_at"@, "N"@, numbers::signed_numeral(ends as int)))
        }),
{
    let item = idempotency::reservation_attributes(key, status, ends);
    assert(item[0] == ("pk"@, "S"@, key));
    assert(item[1] == ("sk"@, "S"@, "IDEMPOTENCY"@));
    assert(item[2] == ("status"@, "S"@, status));
    assert(item[3] == ("expires_at"@, "N"@, numbers::signed_numeral(ends as int)));
}

/// Both stores are used just where there is a table, a way to it, and a state to keep.
pub proof fn law_stores(
    s: preferences::PreferenceStore,
    t: idempotency::IdempotencyStore,
    credentials: bool,
)
    ensures
        s.stores(credentials) <==> credentials && s.table_name is Some && !s.stateless_mode,
        t.stores(credentials) <==> credentials && t.table_name is Some && !t.stateless_mode,
{
}

// Caches.

/// An entry that is put in is there. Where there is room all others stay; where there is none, all
/// but one. A cache without room stays as it is.
pub proof fn law_bounded_insert(
    was: Map<Seq<char>, FileHit>,
    now: Map<Seq<char>, FileHit>,
    key: Seq<char>,
    value: FileHit,
    max: nat,
    a: Seq<char>,
    b: Seq<char>,
)
    requires
        commons_cache::bounded_inserted(was, now, key, value, max),
        a != key && b != key && a != b,
        was.dom().contains(a) && was.dom().contains(b),
    ensures
        max == 0 ==> now == was,
        max > 0 ==> now.dom().contains(key) && now[key] == value,
        max > 0 && (was.dom().contains(key) || was.len() < max) ==> now.dom().contains(a) && now[a]
            == was[a],
        now.dom().contains(a) || now.dom().contains(b),
        now.dom().contains(a) ==> now[a] == was[a],
{
    if max > 0 && !was.dom().contains(key) && was.len() >= max {
        let gone = choose|gone: Seq<char>| #[trigger]
            was.dom().contains(gone) && now == was.remove(gone).insert(key, value);
        assert(now == was.remove(gone).insert(key, value));
    }
}

/// The budget of a cache is what is set, a third of the memory but 64 megabytes at least, or 512
/// where neither is known.
pub proof fn law_cache_budget(n: nat, m: nat, max: nat)
    requires
        n <= max && m <= max,
    ensures
        commons_cache::cache_megabytes(Some(numbers::numeral(n)), None, max) == n,
        commons_cache::cache_megabytes(
            Some(numbers::numeral(n)),
            Some(numbers::numeral(m)),
            max,
        ) == n,
        m >= 192 ==> commons_cache::cache_megabytes(None, Some(numbers::numeral(m)), max) == m / 3,
        m < 192 ==> commons_cache::cache_megabytes(None, Some(numbers::numeral(m)), max) == 64,
        commons_cache::cache_megabytes(None, None, max) == 512,
        n * 1048576 <= max ==> commons_cache::megabytes(n, max) == n * 1048576,
        n * 1048576 > max ==> commons_cache::megabytes(n, max) == max,
{
    formats::law_numbers_are_read_back(n, max, seq![], 0);
    formats::law_numbers_are_read_back(m, max, seq![], 0);
}

/// The bytes of a file are kept under its hash, and without one under its page and address, or its
/// address alone.
pub proof fn law_bytes_keys(f: FileHit, url: Seq<char>)
    ensures
        f.sha1 is Some && (f.sha1->0)@.len() > 0 ==> commons_cache::bytes_key(f, url) == "sha1:"@
            + (f.sha1->0)@,
        (f.sha1 is None || (f.sha1->0)@.len() == 0) && f.page_id != 0 ==> commons_cache::bytes_key(
            f,
            url,
        ) == "page:"@ + numbers::numeral(f.page_id as nat) + ":"@ + url,
        (f.sha1 is None || (f.sha1->0)@.len() == 0) && f.page_id == 0 ==> commons_cache::bytes_key(
            f,
            url,
        ) == "url:"@ + url,
{
}

/// The files of a disk cache come from the oldest to the newest, all of them.
pub proof fn law_oldest_first(entries: Seq<DiskCacheEntry>, i: int, j: int)
    requires
        0 <= i < j < entries.len(),
    ensures
        ({
            let r = ordering::sorted_by(entries, commons_cache::by_age());
            &&& r.len() == entries.len()
            &&& r[i].modified <= r[j].modified
            &&& r.to_multiset() == entries.to_multiset()
        }),
{
    ordering::law_sorted_by(entries, commons_cache::by_age());
    let r = ordering::sorted_by(entries, commons_cache::by_age());
    assert(commons_cache::by_age()(r[i]) <= commons_cache::by_age()(r[j]));
}

/// Sorting is stable: what comes later in the list stands behind everything that is not greater,
/// and before everything that is.
pub proof fn law_sorting_is_stable<T>(s: Seq<T>, x: T, key: spec_fn(T) -> int)
    ensures
        exists|i: int|
            {
                &&& 0 <= i <= s.len()
                &&& #[trigger] ordering::sorted_by(s, key).insert(i, x) == ordering::sorted_by(
                    s.push(x),
                    key,
                )
                &&& forall|j: int|
                    0 <= j < i ==> key(#[trigger] ordering::sorted_by(s, key)[j]) <= key(x)
                &&& forall|j: int|
                    i <= j < s.len() ==> key(#[trigger] ordering::sorted_by(s, key)[j]) > key(x)
            },
{
    ordering::law_sorted_by(s, key);
    let r = ordering::sorted_by(s, key);
    ordering::lemma_first_greater(r, key, key(x), 0);
    let i = ordering::first_greater(r, key, key(x), 0);
    assert(s.push(x).drop_last() =~= s);
    assert(r.insert(i, x) == ordering::sorted_by(s.push(x), key));
    assert forall|j: int| i <= j < s.len() implies key(#[trigger] r[j]) > key(x) by {
        if j > i {
            assert(key(r[i]) <= key(r[j]));
        }
    }
}

// Lists of files.

/// Files are looked up by their title or by the number of their page, in batches of ten and of
/// fifty.
pub proof fn law_lookup_keys(f: FileHit, next: nat, total: nat)
    ensures
        loading::key_of(LoadKey::Title, f) == f.title@,
        loading::key_of(LoadKey::PageId, f) == numbers::numeral(f.page_id as nat),
        next + 10 <= total ==> loading::batch_end(LoadKey::Title, next, total) == next + 10,
        next + 10 > total ==> loading::batch_end(LoadKey::Title, next, total) == total,
        next + 50 <= total ==> loading::batch_end(LoadKey::PageId, next, total) == next + 50,
        next + 50 > total ==> loading::batch_end(LoadKey::PageId, next, total) == total,
        loading::memorable(LoadKey::PageId, f) <==> f.page_id != 0,
{
}

/// What the cache knows is taken from it, each file in the place of its key; the other places are
/// the ones that are asked for, and all of them.
pub proof fn law_known_and_missing(
    cache: Map<Seq<char>, FileHit>,
    keys: Seq<Seq<char>>,
    i: int,
)
    requires
        0 <= i < keys.len() <= usize::MAX,
    ensures
        ({
            let ordered = loading::known_files(cache, keys);
            let missing = loading::empty_places(ordered, keys.len());
            &&& ordered.len() == keys.len()
            &&& cache.dom().contains(keys[i]) ==> ordered[i] == Some(cache[keys[i]])
                && !missing.contains(i as usize)
            &&& !cache.dom().contains(keys[i]) ==> ordered[i] is None && missing.contains(i as usize)
        }),
{
    lemma_missing(loading::known_files(cache, keys), keys.len(), i);
}

proof fn lemma_missing(ordered: Seq<Option<FileHit>>, n: nat, i: int)
    requires
        0 <= i < n <= ordered.len(),
        ordered.len() <= usize::MAX,
    ensures
        loading::empty_places(ordered, n).contains(i as usize) <==> ordered[i] is None,
    decreases n,
{
    let m = loading::empty_places(ordered, n);
    let before = loading::empty_places(ordered, (n - 1) as nat);
    if i < n - 1 {
        lemma_missing(ordered, (n - 1) as nat, i);
        if ordered[n - 1] is None {
            if before.contains(i as usize) {
                let k = choose|k: int| 0 <= k < before.len() && before[k] == i as usize;
                assert(m[k] == i as usize);
            }
            if m.contains(i as usize) {
                let k = choose|k: int| 0 <= k < m.len() && m[k] == i as usize;
                assert(k < before.len());
                assert(before[k] == i as usize);
            }
        }
    } else {
        lemma_places_below(ordered, (n - 1) as nat);
        if ordered[i] is None {
            assert(m.last() == i as usize);
        } else if m.contains(i as usize) {
            let k = choose|k: int| 0 <= k < m.len() && m[k] == i as usize;
            assert(before[k] < n - 1);
        }
    }
}

proof fn lemma_places_below(ordered: Seq<Option<FileHit>>, n: nat)
    requires
        n <= ordered.len() <= usize::MAX,
    ensures
        forall|k: int|
            0 <= k < loading::empty_places(ordered, n).len()
                ==> (#[trigger] loading::empty_places(ordered, n)[k]) < n,
    decreases n,
{
    if n > 0 {
        lemma_places_below(ordered, (n - 1) as nat);
        let before = loading::empty_places(ordered, (n - 1) as nat);
        let all = loading::empty_places(ordered, n);
        assert forall|k: int| 0 <= k < all.len() implies (#[trigger] all[k]) < n by {
            if k < before.len() {
                assert(all[k] == before[k]);
            }
        }
    }
}

/// Of the files that came for a key the last counts; the files that are there come out in the order
/// of their places.
pub proof fn law_files_found(
    by: LoadKey,
    found: Seq<FileHit>,
    f: FileHit,
    key: Seq<char>,
    ordered: Seq<Option<FileHit>>,
)
    ensures
        loading::key_of(by, f) == key ==> loading::last_keyed(by, found.push(f), key) == Some(f),
        loading::key_of(by, f) != key ==> loading::last_keyed(by, found.push(f), key)
            == loading::last_keyed(by, found, key),
        loading::last_keyed(by, seq![], key) is None,
        loading::present(ordered.push(Some(f))) == loading::present(ordered).push(f),
        loading::present(ordered.push(None)) == loading::present(ordered),
        loading::present(seq![]) == Seq::<FileHit>::empty(),
{
    assert(found.push(f).drop_last() =~= found);
    assert(ordered.push(Some(f)).drop_last() =~= ordered);
    assert(ordered.push(None).drop_last() =~= ordered);
}

/// Each key that was asked for gets the file that came for it, in its own place; the other places
/// stay.
pub proof fn law_places_are_filled(
    by: LoadKey,
    ordered: Seq<Option<FileHit>>,
    keys: Seq<Seq<char>>,
    missing: Seq<usize>,
    found: Seq<FileHit>,
    from: nat,
    to: nat,
    i: int,
)
    requires
        from < to <= missing.len(),
        forall|k: int| from <= k < to ==> (#[trigger] missing[k]) < ordered.len(),
        0 <= i < ordered.len(),
    ensures
        ({
            let place = missing[to - 1] as int;
            let before = loading::filled(by, ordered, keys, missing, found, from, (to - 1) as nat);
            let after = loading::filled(by, ordered, keys, missing, found, from, to);
            let hit = loading::last_keyed(by, found, keys[place]);
            &&& after.len() == ordered.len()
            &&& hit is Some ==> after[place] == hit
            &&& i != place || hit is None ==> after[i] == before[i]
        }),
        loading::filled(by, ordered, keys, missing, found, from, from) == ordered,
{
    lemma_filled_length(by, ordered, keys, missing, found, from, (to - 1) as nat);
    lemma_filled_length(by, ordered, keys, missing, found, from, to);
}

proof fn lemma_filled_length(
    by: LoadKey,
    ordered: Seq<Option<FileHit>>,
    keys: Seq<Seq<char>>,
    missing: Seq<usize>,
    found: Seq<FileHit>,
    from: nat,
    to: nat,
)
    requires
        forall|k: int| from <= k < to ==> (#[trigger] missing[k]) < ordered.len(),
    ensures
        loading::filled(by, ordered, keys, missing, found, from, to).len() == ordered.len(),
    decreases to,
{
    if to > from {
        lemma_filled_length(by, ordered, keys, missing, found, from, (to - 1) as nat);
    }
}

/// The keys that are asked for are those of the places they fill, in order.
pub proof fn law_keys_asked_for(
    keys: Seq<Seq<char>>,
    missing: Seq<usize>,
    from: nat,
    to: nat,
    i: int,
)
    requires
        from <= to <= missing.len(),
        0 <= i < to - from,
    ensures
        loading::keys_at(keys, missing, from, to).len() == to - from,
        loading::keys_at(keys, missing, from, to)[i] == keys[missing[from + i] as int],
{
}

/// Room is made only where it is needed: nothing is put in and nothing changed, what is left fits
/// beside the new file, and nothing is left out where all fits.
pub proof fn law_room_is_made(
    files: Map<Seq<char>, Vec<u8>>,
    kept: Map<Seq<char>, Vec<u8>>,
    size: nat,
    budget: nat,
    k: Seq<char>,
)
    requires
        commons_cache::made_room(files, kept, size, budget),
    ensures
        kept.dom().contains(k) ==> files.dom().contains(k) && kept[k] == files[k],
        commons_cache::map_bytes(kept) + size <= budget,
        commons_cache::map_bytes(files) + size <= budget ==> kept == files,
{
    assert(kept.submap_of(files));
    if kept.dom().contains(k) {
        assert(files.dom().contains(k));
    }
}

// Previews.

/// A photo that was sent is followed by the next file. One that was not is tried from the next
/// address of the same file, and behind the last address its link is sent.
pub proof fn law_photo_attempts(
    images: Seq<FileHit>,
    p: models::PreferencesModel,
    file: usize,
    address: usize,
)
    requires
        file < images.len(),
        images.len() < usize::MAX,
        telegram::preview_addresses(images[file as int]).len() < usize::MAX,
        address < telegram::preview_addresses(images[file as int]).len(),
        telegram::photo_caption(images[file as int], p) is Some,
    ensures
        ({
            let f = images[file as int];
            let urls = telegram::preview_addresses(f);
            let here = Progress::Photo { file, address };
            let sent = previews::next_attempt(images, p, here, true);
            let failed = previews::next_attempt(images, p, here, false);
            &&& sent == previews::attempt(images, p, (file + 1) as nat, 0)
            &&& address + 1 < urls.len() ==> failed.1 == (PreviewView::SendPhoto {
                url: urls[address + 1],
                caption: telegram::photo_caption(f, p)->0,
            }) && failed.0 == (Progress::Photo { file, address: (address + 1) as usize })
            &&& address + 1 == urls.len() && telegram::link_to_file(f) is Some ==> failed.1
                == PreviewView::SendText(telegram::link_to_file(f)->0) && failed.0
                == (Progress::Link { file })
        }),
{
}

/// Each file is tried from its first address first, and behind the last file nothing is sent.
pub proof fn law_first_attempts(images: Seq<FileHit>, p: models::PreferencesModel, file: usize)
    requires
        file <= images.len(),
        images.len() < usize::MAX,
    ensures
        ({
            let at = previews::attempt(images, p, file as nat, 0);
            let f = images[file as int];
            let urls = telegram::preview_addresses(f);
            &&& file == images.len() ==> at == (Progress::Over, PreviewView::Finish)
            &&& file < images.len() && telegram::photo_caption(f, p) is Some && urls.len() > 0 ==> at
                == (
                Progress::Photo { file, address: 0 },
                PreviewView::SendPhoto {
                    url: urls[0],
                    caption: telegram::photo_caption(f, p)->0,
                },
            )
        }),
{
}

/// Without a picture a list of links is sent; with some and where the preferences ask for it one
/// rich message, and where that fails, or is not asked for, the pictures one by one.
pub proof fn law_preview_start(
    files: Seq<FileHit>,
    max: nat,
    p: models::PreferencesModel,
)
    ensures
        ({
            let images = telegram::with_preview(files, max);
            let html = telegram::rich_from(seq![], images, p, 0);
            let start = previews::first_attempt(files, max, p);
            &&& images.len() == 0 ==> start == (
                Progress::Links,
                PreviewView::SendText(telegram::plain_files(files)),
            )
            &&& images.len() > 0 && p.rich_image_previews && html.len() > 0 ==> start == (
                Progress::Rich,
                PreviewView::SendRich(html),
            )
            &&& images.len() > 0 && !p.rich_image_previews ==> start == previews::attempt(
                images,
                p,
                0,
                0,
            )
            &&& previews::next_attempt(images, p, Progress::Rich, false) == previews::attempt(
                images,
                p,
                0,
                0,
            )
            &&& previews::next_attempt(images, p, Progress::Rich, true) == (
                Progress::Over,
                PreviewView::Finish,
            )
            &&& previews::next_attempt(images, p, Progress::Links, true) == (
                Progress::Over,
                PreviewView::Finish,
            )
            &&& previews::next_attempt(images, p, Progress::Links, false) == (
                Progress::Over,
                PreviewView::GiveUp,
            )
        }),
{
}

/// A link that was sent is followed by the next file, and one that was not ends it all.
pub proof fn law_link_attempts(images: Seq<FileHit>, p: models::PreferencesModel, file: usize)
    ensures
        previews::next_attempt(images, p, Progress::Link { file }, true) == previews::attempt(
            images,
            p,
            (file + 1) as nat,
            0,
        ),
        previews::next_attempt(images, p, Progress::Link { file }, false) == (
            Progress::Over,
            PreviewView::GiveUp,
        ),
{
}

} // verus!
