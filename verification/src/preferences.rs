//! Preferences as items of a DynamoDB table.

use vstd::prelude::*;
use vstd::string::*;
use std::collections::HashMap;
use crate::config::Config;
use crate::models::{
    DeliveryMode, DocumentPageMode, FileType, Preferences, normalize_inline_result_count,
};
use crate::models;
use crate::numbers;
use crate::text;

verus! {

/// An attribute of an item: what it holds as a text, as a number, as a truth value and as a list
/// of texts. A number is written in decimal. Members of a list that are no texts are nothing.
#[derive(Debug)]
pub struct Attribute {
    /// The text.
    pub s: Option<String>,
    /// The number.
    pub n: Option<String>,
    /// The truth value.
    pub boolean: Option<bool>,
    /// The list.
    pub list: Option<Vec<Option<String>>>,
}

/// The value of `Attribute`.
pub struct AttributeView {
    pub s: Option<Seq<char>>,
    pub n: Option<Seq<char>>,
    pub boolean: Option<bool>,
    pub list: Option<Seq<Option<Seq<char>>>>,
}

/// The value of a list of optional texts.
pub open spec fn opt_texts(v: Seq<Option<String>>) -> Seq<Option<Seq<char>>> {
    Seq::new(v.len(), |i: int| text::opt_text(v[i]))
}

impl View for Attribute {
    type V = AttributeView;

    open spec fn view(&self) -> AttributeView {
        AttributeView {
            s: text::opt_text(self.s),
            n: text::opt_text(self.n),
            boolean: self.boolean,
            list: match self.list {
                Some(v) => Some(opt_texts(v@)),
                None => None,
            },
        }
    }
}

/// The value of an item: named attributes.
pub open spec fn item_view(item: Seq<(String, Attribute)>) -> Seq<(Seq<char>, AttributeView)> {
    Seq::new(item.len(), |i: int| (item[i].0@, item[i].1@))
}

/// The first attribute with a name.
pub open spec fn attribute(item: Seq<(Seq<char>, AttributeView)>, name: Seq<char>) -> Option<
    AttributeView,
>
    decreases item.len(),
{
    if item.len() == 0 {
        None
    } else if item[0].0 == name {
        Some(item[0].1)
    } else {
        attribute(item.skip(1), name)
    }
}

/// Finds the first attribute with a name.
fn find_attribute<'a>(item: &'a Vec<(String, Attribute)>, name: &str) -> (r: Option<&'a Attribute>)
    ensures
        match (r, attribute(item_view(item@), name@)) {
            (Some(a), Some(b)) => a@ == b,
            (None, None) => true,
            _ => false,
        },
{
    let ghost all = item_view(item@);
    let mut i: usize = 0;
    assert(all.skip(0) =~= all);
    while i < item.len()
        invariant
            i <= item.len(),
            all == item_view(item@),
            attribute(all, name@) == attribute(all.skip(i as int), name@),
        decreases item.len() - i,
    {
        proof {
            assert(all.skip(i as int)[0] == all[i as int]);
            assert(all.skip(i as int).skip(1) =~= all.skip(i + 1));
        }
        if text::same(item[i].0.as_str(), name) {
            return Some(&item[i].1);
        }
        i += 1;
    }
    None
}

/// The text of an attribute.
pub open spec fn text_of(item: Seq<(Seq<char>, AttributeView)>, name: Seq<char>) -> Option<
    Seq<char>,
> {
    match attribute(item, name) {
        Some(a) => a.s,
        None => None,
    }
}

/// Reads a string attribute.
fn attr_string(item: &Vec<(String, Attribute)>, name: &str) -> (r: Option<String>)
    ensures
        text::opt_text(r) == text_of(item_view(item@), name@),
{
    match find_attribute(item, name) {
        Some(a) => text::clone_opt(&a.s),
        None => None,
    }
}

/// The truth value of an attribute, or a default.
pub open spec fn flag_of(
    item: Seq<(Seq<char>, AttributeView)>,
    name: Seq<char>,
    default: bool,
) -> bool {
    match attribute(item, name) {
        Some(a) => match a.boolean {
            Some(b) => b,
            None => default,
        },
        None => default,
    }
}

/// Reads a bool attribute.
fn attr_bool(item: &Vec<(String, Attribute)>, name: &str, default: bool) -> (r: bool)
    ensures
        r == flag_of(item_view(item@), name@, default),
{
    match find_attribute(item, name) {
        Some(a) => match a.boolean {
            Some(b) => b,
            None => default,
        },
        None => default,
    }
}

/// How many inline results an item asks for: one of the offered numbers, or else the default.
pub open spec fn inline_count_of(item: Seq<(Seq<char>, AttributeView)>) -> usize {
    match attribute(item, "inline_result_count"@) {
        Some(a) => match a.n {
            Some(t) => match numbers::unsigned_value(t, usize::MAX as nat) {
                Some(n) => models::inline_count(n as usize),
                None => models::DEFAULT_INLINE_RESULT_COUNT,
            },
            None => models::DEFAULT_INLINE_RESULT_COUNT,
        },
        None => models::DEFAULT_INLINE_RESULT_COUNT,
    }
}

/// Reads how many inline results are asked for.
fn attr_inline_count(item: &Vec<(String, Attribute)>) -> (r: usize)
    ensures
        r == inline_count_of(item_view(item@)),
{
    match find_attribute(item, "inline_result_count") {
        Some(a) => match &a.n {
            Some(t) => match numbers::parse_unsigned(t.as_str(), usize::MAX as u64) {
                Some(n) => normalize_inline_result_count(n as usize),
                None => models::DEFAULT_INLINE_RESULT_COUNT,
            },
            None => models::DEFAULT_INLINE_RESULT_COUNT,
        },
        None => models::DEFAULT_INLINE_RESULT_COUNT,
    }
}

/// The texts of a list; members that are none are left out.
pub open spec fn present(list: Seq<Option<Seq<char>>>) -> Seq<Seq<char>>
    decreases list.len(),
{
    if list.len() == 0 {
        seq![]
    } else {
        match list.last() {
            Some(t) => present(list.drop_last()).push(t),
            None => present(list.drop_last()),
        }
    }
}

/// The texts of a list attribute.
pub open spec fn list_of(item: Seq<(Seq<char>, AttributeView)>, name: Seq<char>) -> Seq<Seq<char>> {
    match attribute(item, name) {
        Some(a) => match a.list {
            Some(l) => present(l),
            None => seq![],
        },
        None => seq![],
    }
}

/// Collects the texts of a list.
fn present_texts(list: &Vec<Option<String>>) -> (r: Vec<String>)
    ensures
        text::texts(r@) == present(opt_texts(list@)),
{
    let ghost all = opt_texts(list@);
    let mut out: Vec<String> = Vec::new();
    let mut i: usize = 0;
    assert(all.take(0) =~= seq![]);
    assert(text::texts(out@) =~= seq![]);
    while i < list.len()
        invariant
            i <= list.len(),
            all == opt_texts(list@),
            text::texts(out@) == present(all.take(i as int)),
        decreases list.len() - i,
    {
        proof {
            assert(all.take(i + 1).drop_last() =~= all.take(i as int));
            assert(all.take(i + 1).last() == all[i as int]);
        }
        if let Some(t) = &list[i] {
            proof {
                text::lemma_texts_push(out@, *t);
            }
            out.push(t.clone());
        }
        i += 1;
    }
    assert(all.take(list.len() as int) =~= all);
    out
}

/// Reads a string list attribute.
fn attr_string_list(item: &Vec<(String, Attribute)>, name: &str) -> (r: Vec<String>)
    ensures
        text::texts(r@) == list_of(item_view(item@), name@),
{
    let out: Vec<String> = match find_attribute(item, name) {
        Some(a) => match &a.list {
            Some(l) => present_texts(l),
            None => Vec::new(),
        },
        None => Vec::new(),
    };
    assert(out@.len() == 0 ==> text::texts(out@) =~= seq![]);
    out
}

/// The page mode of an attribute.
pub open spec fn page_mode_of(item: Seq<(Seq<char>, AttributeView)>, name: Seq<char>) -> DocumentPageMode {
    match text_of(item, name) {
        Some(t) => match DocumentPageMode::of_word(models::word(t)) {
            Some(m) => m,
            None => DocumentPageMode::Original,
        },
        None => DocumentPageMode::Original,
    }
}

/// Reads a page mode.
fn attr_page_mode(item: &Vec<(String, Attribute)>, name: &str) -> (r: DocumentPageMode)
    ensures
        r == page_mode_of(item_view(item@), name@),
{
    match attr_string(item, name) {
        Some(t) => match DocumentPageMode::parse(t.as_str()) {
            Some(m) => m,
            None => DocumentPageMode::Original,
        },
        None => DocumentPageMode::Original,
    }
}

/// The delivery mode of an item.
pub open spec fn delivery_mode_of(item: Seq<(Seq<char>, AttributeView)>) -> DeliveryMode {
    match text_of(item, "delivery_mode"@) {
        Some(t) => match DeliveryMode::of_word(models::word(t)) {
            Some(m) => m,
            None => DeliveryMode::Buttons,
        },
        None => DeliveryMode::Buttons,
    }
}

/// The file family of an item.
pub open spec fn file_type_of(item: Seq<(Seq<char>, AttributeView)>) -> FileType {
    match text_of(item, "file_type"@) {
        Some(t) => match FileType::of_word(models::word(t)) {
            Some(m) => m,
            None => FileType::All,
        },
        None => FileType::All,
    }
}

/// The extension of an item.
pub open spec fn extension_of(item: Seq<(Seq<char>, AttributeView)>) -> Option<Seq<char>> {
    match text_of(item, "extension"@) {
        Some(t) => if t.len() > 0 {
            Some(t)
        } else {
            None
        },
        None => None,
    }
}

/// The preferences that an item holds. What it does not hold is as for a user who chose nothing.
pub open spec fn preferences_of(item: Seq<(Seq<char>, AttributeView)>) -> models::PreferencesModel {
    models::PreferencesModel {
        show_category_counts: flag_of(item, "show_category_counts"@, false),
        delivery_mode: delivery_mode_of(item),
        file_type: file_type_of(item),
        extension: extension_of(item),
        favorite_categories: list_of(item, "favorite_categories"@),
        blacklist_categories: list_of(item, "blacklist_categories"@),
        blacklist_uploaders: list_of(item, "blacklist_uploaders"@),
        show_sha1: flag_of(item, "show_sha1"@, false),
        show_file_size: flag_of(item, "show_file_size"@, false),
        show_preview_metadata: flag_of(item, "show_preview_metadata"@, true),
        pdf_mode: page_mode_of(item, "pdf_mode"@),
        djvu_mode: page_mode_of(item, "djvu_mode"@),
        pagination_enabled: flag_of(item, "pagination_enabled"@, true),
        rich_image_previews: flag_of(item, "rich_image_previews"@, false),
        category_file_buttons: flag_of(item, "category_file_buttons"@, false),
        inline_result_count: inline_count_of(item),
    }
}

/// Converts a DynamoDB item into preferences.
pub fn item_to_preferences(item: &Vec<(String, Attribute)>) -> (r: Preferences)
    ensures
        r@ == preferences_of(item_view(item@)),
{
    let delivery_mode = match attr_string(item, "delivery_mode") {
        Some(t) => match DeliveryMode::parse(t.as_str()) {
            Some(m) => m,
            None => DeliveryMode::Buttons,
        },
        None => DeliveryMode::Buttons,
    };
    let file_type = match attr_string(item, "file_type") {
        Some(t) => match FileType::parse(t.as_str()) {
            Some(m) => m,
            None => FileType::All,
        },
        None => FileType::All,
    };
    let extension = match attr_string(item, "extension") {
        Some(t) => if t.as_str().unicode_len() > 0 {
            Some(t)
        } else {
            None
        },
        None => None,
    };
    Preferences {
        show_category_counts: attr_bool(item, "show_category_counts", false),
        delivery_mode,
        file_type,
        extension,
        favorite_categories: attr_string_list(item, "favorite_categories"),
        blacklist_categories: attr_string_list(item, "blacklist_categories"),
        blacklist_uploaders: attr_string_list(item, "blacklist_uploaders"),
        show_sha1: attr_bool(item, "show_sha1", false),
        show_file_size: attr_bool(item, "show_file_size", false),
        show_preview_metadata: attr_bool(item, "show_preview_metadata", true),
        pdf_mode: attr_page_mode(item, "pdf_mode"),
        djvu_mode: attr_page_mode(item, "djvu_mode"),
        pagination_enabled: attr_bool(item, "pagination_enabled", true),
        rich_image_previews: attr_bool(item, "rich_image_previews", false),
        category_file_buttons: attr_bool(item, "category_file_buttons", false),
        inline_result_count: attr_inline_count(item),
    }
}

/// An attribute that is a text.
pub open spec fn text_attribute(s: Seq<char>) -> AttributeView {
    AttributeView { s: Some(s), n: None, boolean: None, list: None }
}

/// An attribute that is a number.
pub open spec fn number_attribute(n: nat) -> AttributeView {
    AttributeView { s: None, n: Some(numbers::numeral(n)), boolean: None, list: None }
}

/// An attribute that is a truth value.
pub open spec fn flag_attribute(b: bool) -> AttributeView {
    AttributeView { s: None, n: None, boolean: Some(b), list: None }
}

/// A list with every member there.
pub open spec fn all_some(list: Seq<Seq<char>>) -> Seq<Option<Seq<char>>> {
    Seq::new(list.len(), |i: int| Some(list[i]))
}

/// An attribute that is a list of texts.
pub open spec fn list_attribute(list: Seq<Seq<char>>) -> AttributeView {
    AttributeView { s: None, n: None, boolean: None, list: Some(all_some(list)) }
}

/// The key of a user's item.
pub open spec fn user_key(telegram_user_id: i64) -> Seq<char> {
    "USER#"@ + numbers::signed_numeral(telegram_user_id as int)
}

/// The item that preferences are stored as.
#[verifier::opaque]
pub open spec fn item_of(telegram_user_id: i64, p: models::PreferencesModel) -> Seq<
    (Seq<char>, AttributeView),
> {
    seq![
        ("pk"@, text_attribute(user_key(telegram_user_id))),
        ("sk"@, text_attribute("PREFERENCES"@)),
        ("show_category_counts"@, flag_attribute(p.show_category_counts)),
        ("delivery_mode"@, text_attribute(p.delivery_mode.pref_word())),
        ("file_type"@, text_attribute(p.file_type.pref_word())),
        (
            "extension"@,
            text_attribute(
                match p.extension {
                    Some(e) => e,
                    None => ""@,
                },
            ),
        ),
        ("favorite_categories"@, list_attribute(p.favorite_categories)),
        ("blacklist_categories"@, list_attribute(p.blacklist_categories)),
        ("blacklist_uploaders"@, list_attribute(p.blacklist_uploaders)),
        ("show_sha1"@, flag_attribute(p.show_sha1)),
        ("show_file_size"@, flag_attribute(p.show_file_size)),
        ("show_preview_metadata"@, flag_attribute(p.show_preview_metadata)),
        ("pagination_enabled"@, flag_attribute(p.pagination_enabled)),
        ("pdf_mode"@, text_attribute(p.pdf_mode.pref_word())),
        ("djvu_mode"@, text_attribute(p.djvu_mode.pref_word())),
        ("rich_image_previews"@, flag_attribute(p.rich_image_previews)),
        ("category_file_buttons"@, flag_attribute(p.category_file_buttons)),
        ("inline_result_count"@, number_attribute(p.inline_result_count as nat)),
    ]
}

/// Adds an attribute that is a text.
fn push_text(item: &mut Vec<(String, Attribute)>, name: &str, s: &str)
    ensures
        item_view(final(item)@) == item_view(old(item)@).push((name@, text_attribute(s@))),
{
    let ghost was = item@;
    item.push(
        (name.to_owned(), Attribute { s: Some(s.to_owned()), n: None, boolean: None, list: None }),
    );
    assert(item_view(item@) =~= item_view(was).push((name@, text_attribute(s@))));
}

/// Adds an attribute that is a number.
fn push_number(item: &mut Vec<(String, Attribute)>, name: &str, n: usize)
    ensures
        item_view(final(item)@) == item_view(old(item)@).push((name@, number_attribute(n as nat))),
{
    let ghost was = item@;
    let written = numbers::decimal(n as u64);
    item.push((name.to_owned(), Attribute { s: None, n: Some(written), boolean: None, list: None }));
    assert(item_view(item@) =~= item_view(was).push((name@, number_attribute(n as nat))));
}

/// Adds an attribute that is a truth value.
fn push_flag(item: &mut Vec<(String, Attribute)>, name: &str, b: bool)
    ensures
        item_view(final(item)@) == item_view(old(item)@).push((name@, flag_attribute(b))),
{
    let ghost was = item@;
    item.push((name.to_owned(), Attribute { s: None, n: None, boolean: Some(b), list: None }));
    assert(item_view(item@) =~= item_view(was).push((name@, flag_attribute(b))));
}

/// Adds an attribute that is a list of texts.
fn push_list(item: &mut Vec<(String, Attribute)>, name: &str, list: &Vec<String>)
    ensures
        item_view(final(item)@) == item_view(old(item)@).push(
            (name@, list_attribute(text::texts(list@))),
        ),
{
    let ghost was = item@;
    let mut members: Vec<Option<String>> = Vec::new();
    let mut i: usize = 0;
    while i < list.len()
        invariant
            i <= list.len(),
            members@.len() == i,
            forall|k: int| 0 <= k < i ==> #[trigger] members@[k] == Some(list@[k]),
        decreases list.len() - i,
    {
        members.push(Some(list[i].clone()));
        i += 1;
    }
    assert(opt_texts(members@) =~= all_some(text::texts(list@)));
    item.push(
        (name.to_owned(), Attribute { s: None, n: None, boolean: None, list: Some(members) }),
    );
    assert(item_view(item@) =~= item_view(was).push(
        (name@, list_attribute(text::texts(list@))),
    ));
}

/// Builds the key of a user's item.
pub fn user_item_key(telegram_user_id: i64) -> (r: String)
    ensures
        r@ == user_key(telegram_user_id),
{
    "USER#".to_owned().concat(numbers::signed_decimal(telegram_user_id).as_str())
}

/// Converts preferences into a DynamoDB item.
pub fn preferences_to_item(telegram_user_id: i64, p: &Preferences) -> (r: Vec<(String, Attribute)>)
    ensures
        item_view(r@) == item_of(telegram_user_id, p@),
{
    let mut item: Vec<(String, Attribute)> = Vec::new();
    proof {
        reveal(item_of);
        assert(item_view(item@) =~= seq![]);
    }
    push_text(&mut item, "pk", user_item_key(telegram_user_id).as_str());
    push_text(&mut item, "sk", "PREFERENCES");
    push_flag(&mut item, "show_category_counts", p.show_category_counts);
    push_text(&mut item, "delivery_mode", p.delivery_mode.as_pref_value());
    push_text(&mut item, "file_type", p.file_type.as_pref_value());
    let extension = match &p.extension {
        Some(e) => e.clone(),
        None => "".to_owned(),
    };
    push_text(&mut item, "extension", extension.as_str());
    push_list(&mut item, "favorite_categories", &p.favorite_categories);
    push_list(&mut item, "blacklist_categories", &p.blacklist_categories);
    push_list(&mut item, "blacklist_uploaders", &p.blacklist_uploaders);
    push_flag(&mut item, "show_sha1", p.show_sha1);
    push_flag(&mut item, "show_file_size", p.show_file_size);
    push_flag(&mut item, "show_preview_metadata", p.show_preview_metadata);
    push_flag(&mut item, "pagination_enabled", p.pagination_enabled);
    push_text(&mut item, "pdf_mode", p.pdf_mode.as_pref_value());
    push_text(&mut item, "djvu_mode", p.djvu_mode.as_pref_value());
    push_flag(&mut item, "rich_image_previews", p.rich_image_previews);
    push_flag(&mut item, "category_file_buttons", p.category_file_buttons);
    push_number(&mut item, "inline_result_count", p.inline_result_count);
    item
}

/// Preferences as they are loaded after they were stored: an empty extension is none, and a number
/// of inline results that is not offered is the default.
pub open spec fn stored(p: models::PreferencesModel) -> models::PreferencesModel {
    models::PreferencesModel {
        extension: match p.extension {
            Some(e) => if e.len() > 0 {
                Some(e)
            } else {
                None
            },
            None => None,
        },
        inline_result_count: models::inline_count(p.inline_result_count),
        ..p
    }
}

/// The attribute of an item whose names are distinct up to it.
proof fn lemma_attribute_at(item: Seq<(Seq<char>, AttributeView)>, i: int)
    requires
        0 <= i < item.len(),
        forall|k: int| 0 <= k < i ==> (#[trigger] item[k]).0 != item[i].0,
    ensures
        attribute(item, item[i].0) == Some(item[i].1),
    decreases i,
{
    if i > 0 {
        let t = item.skip(1);
        assert(item[0].0 != item[i].0);
        assert forall|k: int| 0 <= k < i - 1 implies (#[trigger] t[k]).0 != t[i - 1].0 by {
            assert(t[k] == item[k + 1]);
        }
        assert(t[i - 1] == item[i]);
        lemma_attribute_at(t, i - 1);
    }
}

/// A list with every member there has all its members.
proof fn lemma_present(list: Seq<Seq<char>>)
    ensures
        present(all_some(list)) == list,
    decreases list.len(),
{
    if list.len() > 0 {
        lemma_present(list.drop_last());
        assert(all_some(list).drop_last() =~= all_some(list.drop_last()));
        assert(list.drop_last().push(list.last()) =~= list);
    } else {
        assert(list =~= seq![]);
    }
}

/// The names of the attributes are distinct.
proof fn lemma_names(telegram_user_id: i64, p: models::PreferencesModel)
    ensures
        ({
            let item = item_of(telegram_user_id, p);
            forall|i: int, k: int|
                0 <= k < i < item.len() ==> (#[trigger] item[k]).0 != (#[trigger] item[i]).0
        }),
{
    reveal(item_of);
    reveal_strlit("pk");
    reveal_strlit("sk");
    reveal_strlit("show_category_counts");
    reveal_strlit("delivery_mode");
    reveal_strlit("file_type");
    reveal_strlit("extension");
    reveal_strlit("favorite_categories");
    reveal_strlit("blacklist_categories");
    reveal_strlit("blacklist_uploaders");
    reveal_strlit("show_sha1");
    reveal_strlit("show_file_size");
    reveal_strlit("show_preview_metadata");
    reveal_strlit("pagination_enabled");
    reveal_strlit("pdf_mode");
    reveal_strlit("djvu_mode");
    reveal_strlit("rich_image_previews");
    reveal_strlit("category_file_buttons");
    reveal_strlit("inline_result_count");
    let item = item_of(telegram_user_id, p);
    assert(item[0].0[0] == 'p' && item[0].0.len() == 2);
    assert(item[1].0[0] == 's' && item[1].0.len() == 2);
    assert(item[2].0.len() == 20 && item[2].0[0] == 's');
    assert(item[3].0.len() == 13);
    assert(item[4].0.len() == 9 && item[4].0[0] == 'f');
    assert(item[5].0.len() == 9 && item[5].0[0] == 'e');
    assert(item[6].0.len() == 19 && item[6].0[0] == 'f');
    assert(item[7].0.len() == 20 && item[7].0[0] == 'b');
    assert(item[8].0.len() == 19 && item[8].0[0] == 'b');
    assert(item[9].0.len() == 9 && item[9].0[0] == 's');
    assert(item[10].0.len() == 14);
    assert(item[11].0.len() == 21 && item[11].0[0] == 's');
    assert(item[12].0.len() == 18);
    assert(item[13].0.len() == 8);
    assert(item[14].0.len() == 9 && item[14].0[0] == 'd');
    assert(item[15].0.len() == 19 && item[15].0[0] == 'r');
    assert(item[16].0.len() == 21 && item[16].0[0] == 'c');
    assert(item[17].0.len() == 19 && item[17].0[0] == 'i');
}

/// The truth values of an item are found under their names.
proof fn lemma_stored_flags(telegram_user_id: i64, p: models::PreferencesModel)
    ensures
        ({
            let item = item_of(telegram_user_id, p);
            &&& attribute(item, "show_category_counts"@) == Some(flag_attribute(p.show_category_counts))
            &&& attribute(item, "show_sha1"@) == Some(flag_attribute(p.show_sha1))
            &&& attribute(item, "show_file_size"@) == Some(flag_attribute(p.show_file_size))
            &&& attribute(item, "show_preview_metadata"@) == Some(flag_attribute(p.show_preview_metadata))
            &&& attribute(item, "pagination_enabled"@) == Some(flag_attribute(p.pagination_enabled))
            &&& attribute(item, "rich_image_previews"@) == Some(flag_attribute(p.rich_image_previews))
            &&& attribute(item, "category_file_buttons"@) == Some(flag_attribute(p.category_file_buttons))
        }),
{
    reveal(item_of);
    let item = item_of(telegram_user_id, p);
    lemma_names(telegram_user_id, p);
    lemma_attribute_at(item, 2);
    lemma_attribute_at(item, 9);
    lemma_attribute_at(item, 10);
    lemma_attribute_at(item, 11);
    lemma_attribute_at(item, 12);
    lemma_attribute_at(item, 15);
    lemma_attribute_at(item, 16);
}

/// The modes of an item are found under their names.
proof fn lemma_stored_modes(telegram_user_id: i64, p: models::PreferencesModel)
    ensures
        ({
            let item = item_of(telegram_user_id, p);
            &&& attribute(item, "delivery_mode"@) == Some(text_attribute(p.delivery_mode.pref_word()))
            &&& attribute(item, "file_type"@) == Some(text_attribute(p.file_type.pref_word()))
            &&& attribute(item, "pdf_mode"@) == Some(text_attribute(p.pdf_mode.pref_word()))
            &&& attribute(item, "djvu_mode"@) == Some(text_attribute(p.djvu_mode.pref_word()))
        }),
{
    reveal(item_of);
    let item = item_of(telegram_user_id, p);
    lemma_names(telegram_user_id, p);
    lemma_attribute_at(item, 3);
    lemma_attribute_at(item, 4);
    lemma_attribute_at(item, 13);
    lemma_attribute_at(item, 14);
}

/// The lists of an item are found under their names.
proof fn lemma_stored_lists(telegram_user_id: i64, p: models::PreferencesModel)
    ensures
        ({
            let item = item_of(telegram_user_id, p);
            &&& attribute(item, "favorite_categories"@) == Some(list_attribute(p.favorite_categories))
            &&& attribute(item, "blacklist_categories"@) == Some(list_attribute(p.blacklist_categories))
            &&& attribute(item, "blacklist_uploaders"@) == Some(list_attribute(p.blacklist_uploaders))
        }),
{
    reveal(item_of);
    let item = item_of(telegram_user_id, p);
    lemma_names(telegram_user_id, p);
    lemma_attribute_at(item, 6);
    lemma_attribute_at(item, 7);
    lemma_attribute_at(item, 8);
}

/// The extension and the number of inline results of an item are found under their names.
proof fn lemma_stored_choices(telegram_user_id: i64, p: models::PreferencesModel)
    ensures
        ({
            let item = item_of(telegram_user_id, p);
            &&& attribute(item, "extension"@) == Some(
                text_attribute(
                    match p.extension {
                        Some(e) => e,
                        None => ""@,
                    },
                ),
            )
            &&& attribute(item, "inline_result_count"@) == Some(
                number_attribute(p.inline_result_count as nat),
            )
        }),
{
    reveal(item_of);
    let item = item_of(telegram_user_id, p);
    lemma_names(telegram_user_id, p);
    lemma_attribute_at(item, 5);
    lemma_attribute_at(item, 17);
}

/// Loading what was stored gives the preferences back, every one of them, where the extension is
/// not empty and the number of inline results is one that is offered.
pub proof fn law_stored_preferences_load(telegram_user_id: i64, p: models::PreferencesModel)
    ensures
        preferences_of(item_of(telegram_user_id, p)) == stored(p),
        p.extension != Some(Seq::<char>::empty()) && models::INLINE_RESULT_COUNT_OPTIONS@.contains(
            p.inline_result_count,
        ) ==> preferences_of(item_of(telegram_user_id, p)) == p,
{
    lemma_stored_flags(telegram_user_id, p);
    lemma_stored_modes(telegram_user_id, p);
    lemma_stored_lists(telegram_user_id, p);
    lemma_stored_choices(telegram_user_id, p);
    numbers::law_numeral_round_trip(p.inline_result_count as nat);
    lemma_present(p.favorite_categories);
    lemma_present(p.blacklist_categories);
    lemma_present(p.blacklist_uploaders);
    models::law_delivery_mode_round_trip(p.delivery_mode);
    models::law_file_type_round_trip(p.file_type);
    models::law_page_mode_round_trip(p.pdf_mode);
    models::law_page_mode_round_trip(p.djvu_mode);
    reveal_strlit("");
    assert(p.extension is Some && (p.extension->0).len() == 0 ==> p.extension->0
        =~= Seq::<char>::empty());
}

/// An item without attributes holds the preferences of a user who chose nothing.
pub proof fn law_bare_item_gives_defaults()
    ensures
        preferences_of(seq![]) == models::PreferencesModel::initial(),
{
}

/// Preference storage backed by DynamoDB when stateful mode is enabled.
#[derive(Debug)]
pub struct PreferenceStore {
    /// Name of the table.
    pub table_name: Option<String>,
    /// Whether nothing is stored.
    pub stateless_mode: bool,
    /// AWS region of the table.
    pub aws_region: String,
}

/// Where the preferences of a user are found.
#[derive(Debug)]
pub enum Lookup {
    /// Here: they are known.
    Known(Preferences),
    /// In the table.
    Load,
}

impl PreferenceStore {
    /// Creates a preference store from runtime configuration.
    pub fn new(config: &Config) -> (r: Self)
        ensures
            r.table_name == config.dynamodb_table,
            r.stateless_mode == config.stateless_mode,
            r.aws_region == config.aws_region,
    {
        PreferenceStore {
            table_name: text::clone_opt(&config.dynamodb_table),
            stateless_mode: config.stateless_mode,
            aws_region: config.aws_region.clone(),
        }
    }

    /// True where preferences are stored in the table.
    pub open spec fn stores(self, has_credentials: bool) -> bool {
        !self.stateless_mode && self.table_name is Some && has_credentials
    }

    /// Returns true when preferences are stored in the table.
    pub fn uses_table(&self, has_credentials: bool) -> (r: bool)
        ensures
            r == self.stores(has_credentials),
    {
        !self.stateless_mode && self.table_name.is_some() && has_credentials
    }

    /// Looks for the preferences of a Telegram user: the default where nothing is stored, those in
    /// memory where they are known, or else those in the table.
    pub fn get(
        &self,
        known: &HashMap<i64, Preferences>,
        telegram_user_id: i64,
        has_credentials: bool,
    ) -> (r: Lookup)
        ensures
            match r {
                Lookup::Known(p) => if !self.stores(has_credentials) {
                    p@ == models::PreferencesModel::initial()
                } else {
                    known@.dom().contains(telegram_user_id) && p@ == known@[telegram_user_id]@
                },
                Lookup::Load => self.stores(has_credentials) && !known@.dom().contains(
                    telegram_user_id,
                ),
            },
    {
        if !self.uses_table(has_credentials) {
            return Lookup::Known(Preferences::default());
        }
        match known.get(&telegram_user_id) {
            Some(p) => Lookup::Known(p.clone()),
            None => Lookup::Load,
        }
    }

    /// Takes the preferences that the table gave for a user, or the default where it gave none,
    /// keeps them in memory and returns them.
    pub fn take_loaded(
        known: &mut HashMap<i64, Preferences>,
        telegram_user_id: i64,
        loaded: Option<Preferences>,
    ) -> (r: Preferences)
        ensures
            r@ == (match loaded {
                Some(p) => p@,
                None => models::PreferencesModel::initial(),
            }),
            final(known)@.dom() == old(known)@.dom().insert(telegram_user_id),
            final(known)@[telegram_user_id]@ == r@,
            forall|id: i64|
                id != telegram_user_id && old(known)@.dom().contains(id)
                    ==> #[trigger] final(known)@[id] == old(known)@[id],
    {
        let p = match loaded {
            Some(p) => p,
            None => Preferences::default(),
        };
        known.insert(telegram_user_id, p.clone());
        p
    }

    /// Keeps the preferences of a Telegram user in memory, and tells whether they go to the table
    /// too.
    pub fn put(
        &self,
        known: &mut HashMap<i64, Preferences>,
        telegram_user_id: i64,
        preferences: &Preferences,
        has_credentials: bool,
    ) -> (r: bool)
        ensures
            r == self.stores(has_credentials),
            final(known)@.dom() == old(known)@.dom().insert(telegram_user_id),
            final(known)@[telegram_user_id]@ == preferences@,
            forall|id: i64|
                id != telegram_user_id && old(known)@.dom().contains(id)
                    ==> #[trigger] final(known)@[id] == old(known)@[id],
    {
        known.insert(telegram_user_id, preferences.clone());
        self.uses_table(has_credentials)
    }
}

} // verus!
