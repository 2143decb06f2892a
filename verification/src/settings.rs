//! Editing preferences: commands, buttons and the texts that show them.

use vstd::prelude::*;
use vstd::string::*;
use crate::config::Config;
use crate::models::{
    COMMONS_AUDIO_EXTENSIONS, COMMONS_DOCUMENT_EXTENSIONS, COMMONS_IMAGE_EXTENSIONS,
    COMMONS_MODEL_EXTENSIONS, COMMONS_SUPPORTED_EXTENSIONS, COMMONS_VIDEO_EXTENSIONS, DeliveryMode,
    DocumentPageMode, FileType, INLINE_RESULT_COUNT_OPTIONS, Preferences,
    normalize_inline_result_count,
};
use crate::models;
use crate::numbers;
use crate::ordering;
use crate::parser;
use crate::telegram::{
    InlineKeyboardButton, InlineKeyboardMarkup, Reply, callback_button, push_row, row_of,
    row_of_two,
};
use crate::telegram;
use crate::text;

verus! {

// Commands.

/// True of a message that edits preferences.
pub open spec fn edits_preferences(s: Seq<char>) -> bool {
    ||| text::begins(s, "/settings "@)
    ||| text::begins(s, "/prefs "@)
    ||| text::begins(s, "/preferences "@)
}

/// Returns true when a message edits preferences through a slash command.
pub fn is_preferences_update_command(s: &str) -> (r: bool)
    ensures
        r == edits_preferences(s@),
{
    text::starts_with(s, "/settings ") || text::starts_with(s, "/prefs ") || text::starts_with(
        s,
        "/preferences ",
    )
}

/// The test that a text is another one than a given.
pub open spec fn other_than(value: Seq<char>) -> spec_fn(Seq<char>) -> bool {
    |s: Seq<char>| s != value
}

/// What a switch is set to.
pub open spec fn switch(word: Seq<char>, now: bool) -> bool {
    if word == "on"@ {
        true
    } else if word == "off"@ {
        false
    } else {
        now
    }
}

/// A list after a command: with a text more, or without every occurrence of it.
pub open spec fn edited_list(list: Seq<Seq<char>>, verb: Seq<char>, value: Option<Seq<char>>) -> Seq<
    Seq<char>,
> {
    if value is Some && verb == "add"@ {
        list.push(value->0)
    } else if value is Some && verb == "remove"@ {
        ordering::kept(list, other_than(value->0))
    } else {
        list
    }
}

/// The inline result count after a command.
pub open spec fn edited_count(now: usize, word: Seq<char>) -> usize {
    match numbers::unsigned_value(word, usize::MAX as nat) {
        Some(n) => models::inline_count(n as usize),
        None => now,
    }
}

/// The delivery mode after a command.
pub open spec fn edited_mode(now: DeliveryMode, word: Seq<char>) -> DeliveryMode {
    match DeliveryMode::of_word(models::word(word)) {
        Some(m) => m,
        None => now,
    }
}

/// The file family after a command.
pub open spec fn edited_type(now: FileType, word: Seq<char>) -> FileType {
    match FileType::of_word(models::word(word)) {
        Some(t) => t,
        None => now,
    }
}

/// The extension after a command.
pub open spec fn edited_extension(now: Option<Seq<char>>, word: Seq<char>) -> Option<Seq<char>> {
    let ext = text::drop_leading(word, text::just('.'));
    if word == "off"@ {
        None
    } else if text::among(COMMONS_SUPPORTED_EXTENSIONS@, parser::bare_extension(ext)) {
        Some(ext)
    } else {
        now
    }
}

/// True of the names of preferences that are switches.
pub open spec fn names_switch(name: Seq<char>) -> bool {
    ||| name == "category-counts"@
    ||| name == "sha1"@
    ||| name == "filesize"@
    ||| name == "preview-metadata"@
    ||| name == "metadata"@
    ||| name == "rich-previews"@
    ||| name == "rich"@
    ||| name == "pagination"@
}

/// Preferences after a command that sets a switch.
pub open spec fn with_switch(
    p: models::PreferencesModel,
    name: Seq<char>,
    word: Seq<char>,
) -> models::PreferencesModel {
    if name == "category-counts"@ {
        models::PreferencesModel { show_category_counts: switch(word, p.show_category_counts), ..p }
    } else if name == "sha1"@ {
        models::PreferencesModel { show_sha1: switch(word, p.show_sha1), ..p }
    } else if name == "filesize"@ {
        models::PreferencesModel { show_file_size: switch(word, p.show_file_size), ..p }
    } else if name == "preview-metadata"@ || name == "metadata"@ {
        models::PreferencesModel {
            show_preview_metadata: switch(word, p.show_preview_metadata),
            ..p
        }
    } else if name == "rich-previews"@ || name == "rich"@ {
        models::PreferencesModel { rich_image_previews: switch(word, p.rich_image_previews), ..p }
    } else {
        models::PreferencesModel { pagination_enabled: switch(word, p.pagination_enabled), ..p }
    }
}

/// How the files of a category are shown after a command.
pub open spec fn category_files_switch(word: Seq<char>, now: bool) -> bool {
    if word == "buttons"@ {
        true
    } else if word == "images"@ {
        false
    } else {
        switch(word, now)
    }
}

/// True of the names of preferences that are chosen by a word.
pub open spec fn names_choice(name: Seq<char>) -> bool {
    ||| name == "category-file-buttons"@
    ||| name == "category-files"@
    ||| name == "inline"@
    ||| name == "inline-count"@
    ||| name == "mode"@
    ||| name == "type"@
    ||| name == "ext"@
}

/// Preferences after a command that makes a choice.
pub open spec fn with_choice(
    p: models::PreferencesModel,
    name: Seq<char>,
    word: Seq<char>,
) -> models::PreferencesModel {
    if name == "category-file-buttons"@ || name == "category-files"@ {
        models::PreferencesModel {
            category_file_buttons: category_files_switch(word, p.category_file_buttons),
            ..p
        }
    } else if name == "inline"@ || name == "inline-count"@ {
        models::PreferencesModel {
            inline_result_count: edited_count(p.inline_result_count, word),
            ..p
        }
    } else if name == "mode"@ {
        models::PreferencesModel {
            delivery_mode: edited_mode(p.delivery_mode, word),
            ..p
        }
    } else if name == "type"@ {
        models::PreferencesModel { file_type: edited_type(p.file_type, word), ..p }
    } else {
        models::PreferencesModel { extension: edited_extension(p.extension, word), ..p }
    }
}

/// Preferences after a command that edits a list.
pub open spec fn with_list(
    p: models::PreferencesModel,
    name: Seq<char>,
    verb: Seq<char>,
    value: Option<Seq<char>>,
) -> models::PreferencesModel {
    if name == "favorite"@ {
        models::PreferencesModel {
            favorite_categories: edited_list(p.favorite_categories, verb, value),
            ..p
        }
    } else if name == "blacklist-category"@ {
        models::PreferencesModel {
            blacklist_categories: edited_list(p.blacklist_categories, verb, value),
            ..p
        }
    } else if name == "blacklist-user"@ {
        models::PreferencesModel {
            blacklist_uploaders: edited_list(p.blacklist_uploaders, verb, value),
            ..p
        }
    } else {
        p
    }
}

/// Preferences after a command with a name, a word and what follows the word.
pub open spec fn edited(
    p: models::PreferencesModel,
    name: Seq<char>,
    word: Seq<char>,
    value: Option<Seq<char>>,
) -> models::PreferencesModel {
    if names_switch(name) {
        with_switch(p, name, word)
    } else if names_choice(name) {
        with_choice(p, name, word)
    } else {
        with_list(p, name, word, value)
    }
}

/// Preferences after a command of tokens: the command, a name, a word, and what follows.
pub open spec fn edited_by(
    tokens: Seq<Seq<char>>,
    p: models::PreferencesModel,
) -> models::PreferencesModel {
    if tokens.len() >= 3 {
        edited(
            p,
            text::lowered(tokens[1]),
            text::lowered(tokens[2]),
            if tokens.len() >= 4 {
                Some(text::joined(tokens.skip(3), " "@))
            } else {
                None
            },
        )
    } else {
        p
    }
}

/// Reads a switch.
fn read_switch(word: &str, now: bool) -> (r: bool)
    ensures
        r == switch(word@, now),
{
    if text::same(word, "on") {
        true
    } else if text::same(word, "off") {
        false
    } else {
        now
    }
}

/// Takes every occurrence of a text out of a list.
fn without_text(list: &Vec<String>, value: &str) -> (r: Vec<String>)
    ensures
        text::texts(r@) == ordering::kept(text::texts(list@), other_than(value@)),
{
    let ghost all = text::texts(list@);
    let mut out: Vec<String> = Vec::new();
    let mut i: usize = 0;
    assert(all.take(0) =~= seq![]);
    assert(text::texts(out@) =~= seq![]);
    while i < list.len()
        invariant
            i <= list.len(),
            all == text::texts(list@),
            text::texts(out@) == ordering::kept(all.take(i as int), other_than(value@)),
        decreases list.len() - i,
    {
        proof {
            assert(all.take(i + 1).drop_last() =~= all.take(i as int));
            assert(all.take(i + 1).last() == list@[i as int]@);
        }
        if !text::same(list[i].as_str(), value) {
            proof {
                text::lemma_texts_push(out@, list@[i as int]);
            }
            out.push(list[i].clone());
        }
        i += 1;
    }
    assert(all.take(list.len() as int) =~= all);
    out
}

/// Edits a list by a command.
fn edit_list(list: &Vec<String>, verb: &str, value: &Option<String>) -> (r: Vec<String>)
    ensures
        text::texts(r@) == edited_list(text::texts(list@), verb@, text::opt_text(*value)),
{
    match value {
        Some(v) => if text::same(verb, "add") {
            let mut out = text::clone_texts(list);
            proof {
                text::lemma_texts_push(out@, *v);
            }
            out.push(v.clone());
            out
        } else if text::same(verb, "remove") {
            without_text(list, v.as_str())
        } else {
            text::clone_texts(list)
        },
        None => text::clone_texts(list),
    }
}

/// Sets a switch by a command.
#[verifier::rlimit(60)]
fn set_switch(p: &mut Preferences, name: &str, word: &str) -> (r: bool)
    ensures
        r == names_switch(name@),
        final(p)@ == (if r {
            with_switch(old(p)@, name@, word@)
        } else {
            old(p)@
        }),
{
    if text::same(name, "category-counts") {
        p.show_category_counts = read_switch(word, p.show_category_counts);
        return true;
    }
    if text::same(name, "sha1") {
        p.show_sha1 = read_switch(word, p.show_sha1);
        return true;
    }
    if text::same(name, "filesize") {
        p.show_file_size = read_switch(word, p.show_file_size);
        return true;
    }
    if text::same(name, "preview-metadata") || text::same(name, "metadata") {
        p.show_preview_metadata = read_switch(word, p.show_preview_metadata);
        return true;
    }
    if text::same(name, "rich-previews") || text::same(name, "rich") {
        p.rich_image_previews = read_switch(word, p.rich_image_previews);
        return true;
    }
    if text::same(name, "pagination") {
        p.pagination_enabled = read_switch(word, p.pagination_enabled);
        return true;
    }
    false
}

/// Reads how the files of a category are shown.
fn read_category_files_switch(word: &str, now: bool) -> (r: bool)
    ensures
        r == category_files_switch(word@, now),
{
    if text::same(word, "buttons") {
        true
    } else if text::same(word, "images") {
        false
    } else {
        read_switch(word, now)
    }
}

/// Chooses an extension by a command.
fn read_extension(now: &Option<String>, word: &str) -> (r: Option<String>)
    ensures
        text::opt_text(r) == edited_extension(text::opt_text(*now), word@),
{
    let ext = text::trim_start_char(word, '.');
    if text::same(word, "off") {
        None
    } else if parser::is_commons_supported_extension(ext.as_str()) {
        Some(ext)
    } else {
        text::clone_opt(now)
    }
}

/// Chooses an inline result count by a command.
fn read_count(now: usize, word: &str) -> (r: usize)
    ensures
        r == edited_count(now, word@),
{
    match numbers::parse_unsigned(word, usize::MAX as u64) {
        Some(n) => normalize_inline_result_count(n as usize),
        None => now,
    }
}

/// Chooses a delivery mode by a command.
fn read_mode(now: DeliveryMode, word: &str) -> (r: DeliveryMode)
    ensures
        r == edited_mode(now, word@),
{
    match DeliveryMode::parse(word) {
        Some(mode) => mode,
        None => now,
    }
}

/// Chooses a file family by a command.
fn read_type(now: FileType, word: &str) -> (r: FileType)
    ensures
        r == edited_type(now, word@),
{
    match FileType::parse(word) {
        Some(file_type) => file_type,
        None => now,
    }
}

/// Makes a choice by a command.
#[verifier::rlimit(60)]
fn set_choice(p: &mut Preferences, name: &str, word: &str) -> (r: bool)
    ensures
        r == names_choice(name@),
        final(p)@ == (if r {
            with_choice(old(p)@, name@, word@)
        } else {
            old(p)@
        }),
{
    if text::same(name, "category-file-buttons") || text::same(name, "category-files") {
        p.category_file_buttons = read_category_files_switch(word, p.category_file_buttons);
        return true;
    }
    if text::same(name, "inline") || text::same(name, "inline-count") {
        p.inline_result_count = read_count(p.inline_result_count, word);
        return true;
    }
    if text::same(name, "mode") {
        p.delivery_mode = read_mode(p.delivery_mode, word);
        return true;
    }
    if text::same(name, "type") {
        p.file_type = read_type(p.file_type, word);
        return true;
    }
    if text::same(name, "ext") {
        p.extension = read_extension(&p.extension, word);
        return true;
    }
    false
}

/// Edits a list of the preferences by a command.
fn edit_named_list(p: &mut Preferences, name: &str, verb: &str, value: &Option<String>)
    ensures
        final(p)@ == with_list(old(p)@, name@, verb@, text::opt_text(*value)),
{
    if text::same(name, "favorite") {
        p.favorite_categories = edit_list(&p.favorite_categories, verb, value);
    } else if text::same(name, "blacklist-category") {
        p.blacklist_categories = edit_list(&p.blacklist_categories, verb, value);
    } else if text::same(name, "blacklist-user") {
        p.blacklist_uploaders = edit_list(&p.blacklist_uploaders, verb, value);
    }
}

/// Edits preferences by a command with a name, a word and what follows the word.
fn edit_preferences(p: &mut Preferences, name: &str, word: &str, value: &Option<String>)
    ensures
        final(p)@ == edited(old(p)@, name@, word@, text::opt_text(*value)),
{
    if set_switch(p, name, word) {
        return;
    }
    if set_choice(p, name, word) {
        return;
    }
    edit_named_list(p, name, word, value);
}

/// Joins the tokens from an index on.
fn join_from(tokens: &Vec<String>, from: usize) -> (r: String)
    requires
        from <= tokens@.len(),
    ensures
        r@ == text::joined(text::texts(tokens@).skip(from as int), " "@),
{
    let mut rest: Vec<String> = Vec::new();
    let mut i: usize = from;
    while i < tokens.len()
        invariant
            from <= i <= tokens.len(),
            rest@ == tokens@.subrange(from as int, i as int),
        decreases tokens.len() - i,
    {
        rest.push(tokens[i].clone());
        assert(tokens@.subrange(from as int, i + 1) =~= tokens@.subrange(
            from as int,
            i as int,
        ).push(tokens@[i as int]));
        i += 1;
    }
    assert(text::texts(rest@) =~= text::texts(tokens@).skip(from as int));
    text::join(&rest, " ")
}

/// Applies a `/prefs ...` command to the current preferences.
pub fn update_preferences(command: &str, preferences: Preferences) -> (r: Preferences)
    ensures
        r@ == edited_by(parser::tokens_of(command@), preferences@),
{
    let mut p = preferences;
    let tokens = parser::tokenize(command);
    let ghost all = text::texts(tokens@);
    assert(all.len() == tokens@.len());
    if tokens.len() >= 3 {
        let name = text::ascii_lowercase(tokens[1].as_str());
        let word = text::ascii_lowercase(tokens[2].as_str());
        let value: Option<String> = if tokens.len() >= 4 {
            Some(join_from(&tokens, 3))
        } else {
            None
        };
        assert(all[1] == tokens@[1]@ && all[2] == tokens@[2]@);
        edit_preferences(&mut p, name.as_str(), word.as_str(), &value);
    }
    p
}

/// Taking a text out of a list that it was just added to gives the list without it.
pub proof fn law_add_then_remove(list: Seq<Seq<char>>, value: Seq<char>)
    ensures
        edited_list(edited_list(list, "add"@, Some(value)), "remove"@, Some(value))
            == ordering::kept(list, other_than(value)),
        !edited_list(list, "remove"@, Some(value)).contains(value),
{
    reveal_strlit("add");
    reveal_strlit("remove");
    assert("add"@.len() != "remove"@.len());
    assert(list.push(value).drop_last() =~= list);
    ordering::law_kept(list, other_than(value));
}

/// A command that names no preference changes nothing.
pub proof fn law_short_command_changes_nothing(
    tokens: Seq<Seq<char>>,
    p: models::PreferencesModel,
)
    requires
        tokens.len() < 3,
    ensures
        edited_by(tokens, p) == p,
{
}

// Menus.

/// Extension submenu groups.
#[derive(Clone, Copy, Debug, PartialEq, Eq, Structural)]
pub enum ExtensionGroup {
    /// Image extensions.
    Images,
    /// Audio extensions.
    Audio,
    /// Video extensions.
    Video,
    /// Document extensions.
    Documents,
    /// Model and other supported file extensions.
    Other,
}

/// The currently visible preferences submenu.
#[derive(Clone, Copy, Debug, PartialEq, Eq, Structural)]
pub enum PreferencesView {
    /// Main preferences menu.
    Main,
    /// Extension group chooser.
    ExtensionMenu,
    /// Concrete extension buttons for one group.
    ExtensionGroup(ExtensionGroup),
}

impl ExtensionGroup {
    /// The group that callback data names.
    pub open spec fn of_word(w: Seq<char>) -> Option<ExtensionGroup> {
        if w == "images"@ {
            Some(ExtensionGroup::Images)
        } else if w == "audio"@ {
            Some(ExtensionGroup::Audio)
        } else if w == "video"@ {
            Some(ExtensionGroup::Video)
        } else if w == "documents"@ {
            Some(ExtensionGroup::Documents)
        } else if w == "other"@ {
            Some(ExtensionGroup::Other)
        } else {
            None
        }
    }

    /// The callback data of a group.
    pub open spec fn word(self) -> Seq<char> {
        match self {
            ExtensionGroup::Images => "images"@,
            ExtensionGroup::Audio => "audio"@,
            ExtensionGroup::Video => "video"@,
            ExtensionGroup::Documents => "documents"@,
            ExtensionGroup::Other => "other"@,
        }
    }

    /// The label of a group.
    pub open spec fn title(self) -> Seq<char> {
        match self {
            ExtensionGroup::Images => "Images"@,
            ExtensionGroup::Audio => "Audio"@,
            ExtensionGroup::Video => "Video"@,
            ExtensionGroup::Documents => "Documents"@,
            ExtensionGroup::Other => "3D / other"@,
        }
    }

    /// The extensions of a group.
    pub open spec fn members(self) -> Seq<&'static str> {
        match self {
            ExtensionGroup::Images => COMMONS_IMAGE_EXTENSIONS@,
            ExtensionGroup::Audio => COMMONS_AUDIO_EXTENSIONS@,
            ExtensionGroup::Video => COMMONS_VIDEO_EXTENSIONS@,
            ExtensionGroup::Documents => COMMONS_DOCUMENT_EXTENSIONS@,
            ExtensionGroup::Other => COMMONS_MODEL_EXTENSIONS@,
        }
    }

    /// Parses callback data into an extension group.
    pub fn parse(value: &str) -> (r: Option<Self>)
        ensures
            r == ExtensionGroup::of_word(value@),
    {
        if text::same(value, "images") {
            Some(ExtensionGroup::Images)
        } else if text::same(value, "audio") {
            Some(ExtensionGroup::Audio)
        } else if text::same(value, "video") {
            Some(ExtensionGroup::Video)
        } else if text::same(value, "documents") {
            Some(ExtensionGroup::Documents)
        } else if text::same(value, "other") {
            Some(ExtensionGroup::Other)
        } else {
            None
        }
    }

    /// Returns callback data for this group.
    pub fn callback_value(self) -> (r: &'static str)
        ensures
            r@ == self.word(),
    {
        match self {
            ExtensionGroup::Images => "images",
            ExtensionGroup::Audio => "audio",
            ExtensionGroup::Video => "video",
            ExtensionGroup::Documents => "documents",
            ExtensionGroup::Other => "other",
        }
    }

    /// Returns a human-readable label for this group.
    pub fn label(self) -> (r: &'static str)
        ensures
            r@ == self.title(),
    {
        match self {
            ExtensionGroup::Images => "Images",
            ExtensionGroup::Audio => "Audio",
            ExtensionGroup::Video => "Video",
            ExtensionGroup::Documents => "Documents",
            ExtensionGroup::Other => "3D / other",
        }
    }

    /// Returns the extensions shown by this group.
    pub fn extensions(self) -> (r: Vec<&'static str>)
        ensures
            r@ == self.members(),
    {
        match self {
            ExtensionGroup::Images => list_of(&COMMONS_IMAGE_EXTENSIONS),
            ExtensionGroup::Audio => list_of(&COMMONS_AUDIO_EXTENSIONS),
            ExtensionGroup::Video => list_of(&COMMONS_VIDEO_EXTENSIONS),
            ExtensionGroup::Documents => list_of(&COMMONS_DOCUMENT_EXTENSIONS),
            ExtensionGroup::Other => list_of(&COMMONS_MODEL_EXTENSIONS),
        }
    }

    /// Returns true when an extension belongs to this group.
    pub fn contains(self, ext: &str) -> (r: bool)
        ensures
            r == text::among(self.members(), ext@),
    {
        match self {
            ExtensionGroup::Images => text::listed(&COMMONS_IMAGE_EXTENSIONS, ext),
            ExtensionGroup::Audio => text::listed(&COMMONS_AUDIO_EXTENSIONS, ext),
            ExtensionGroup::Video => text::listed(&COMMONS_VIDEO_EXTENSIONS, ext),
            ExtensionGroup::Documents => text::listed(&COMMONS_DOCUMENT_EXTENSIONS, ext),
            ExtensionGroup::Other => text::listed(&COMMONS_MODEL_EXTENSIONS, ext),
        }
    }
}

/// Copies an array to a list.
fn list_of<const N: usize>(a: &[&'static str; N]) -> (r: Vec<&'static str>)
    ensures
        r@ == a@,
{
    let mut out: Vec<&'static str> = Vec::new();
    let mut i: usize = 0;
    while i < N
        invariant
            i <= N,
            a@.len() == N,
            out@ == a@.take(i as int),
        decreases N - i,
    {
        out.push(a[i]);
        assert(a@.take(i + 1) =~= a@.take(i as int).push(a@[i as int]));
        i += 1;
    }
    assert(a@.take(N as int) =~= a@);
    out
}

/// The group that an extension belongs to.
pub open spec fn group_of(ext: Seq<char>) -> Option<ExtensionGroup> {
    if text::among(ExtensionGroup::Images.members(), ext) {
        Some(ExtensionGroup::Images)
    } else if text::among(ExtensionGroup::Audio.members(), ext) {
        Some(ExtensionGroup::Audio)
    } else if text::among(ExtensionGroup::Video.members(), ext) {
        Some(ExtensionGroup::Video)
    } else if text::among(ExtensionGroup::Documents.members(), ext) {
        Some(ExtensionGroup::Documents)
    } else if text::among(ExtensionGroup::Other.members(), ext) {
        Some(ExtensionGroup::Other)
    } else {
        None
    }
}

/// Returns the extension group that owns an extension.
pub fn extension_group_for(ext: &str) -> (r: Option<ExtensionGroup>)
    ensures
        r == group_of(ext@),
{
    if ExtensionGroup::Images.contains(ext) {
        Some(ExtensionGroup::Images)
    } else if ExtensionGroup::Audio.contains(ext) {
        Some(ExtensionGroup::Audio)
    } else if ExtensionGroup::Video.contains(ext) {
        Some(ExtensionGroup::Video)
    } else if ExtensionGroup::Documents.contains(ext) {
        Some(ExtensionGroup::Documents)
    } else if ExtensionGroup::Other.contains(ext) {
        Some(ExtensionGroup::Other)
    } else {
        None
    }
}

/// The callback data of a group names the group.
pub proof fn law_group_round_trip(g: ExtensionGroup)
    ensures
        ExtensionGroup::of_word(g.word()) == Some(g),
{
    reveal_strlit("images");
    reveal_strlit("audio");
    reveal_strlit("video");
    reveal_strlit("documents");
    reveal_strlit("other");
    assert("images"@[0] == 'i' && "audio"@[0] == 'a' && "video"@[0] == 'v');
    assert("documents"@[0] == 'd' && "other"@[0] == 'o');
}

// Callbacks.

/// The result of applying one preference callback.
#[derive(Debug)]
pub struct PreferenceCallbackResult {
    /// Updated preferences.
    pub preferences: Preferences,
    /// View to render next.
    pub view: PreferencesView,
    /// Whether the preference data changed.
    pub changed: bool,
    /// Whether the message should be re-rendered.
    pub render: bool,
}

/// The value of `PreferenceCallbackResult`.
pub struct CallbackModel {
    pub preferences: models::PreferencesModel,
    pub view: PreferencesView,
    pub changed: bool,
    pub render: bool,
}

impl View for PreferenceCallbackResult {
    type V = CallbackModel;

    open spec fn view(&self) -> CallbackModel {
        CallbackModel {
            preferences: self.preferences@,
            view: self.view,
            changed: self.changed,
            render: self.render,
        }
    }
}

/// The outcome of a switch: the preferences have changed, and the main menu is shown.
pub open spec fn toggled(p: models::PreferencesModel) -> Option<CallbackModel> {
    Some(
        CallbackModel { preferences: p, view: PreferencesView::Main, changed: true, render: true },
    )
}

/// The outcome of a choice: the menu is shown again only where something has changed.
pub open spec fn chosen(
    p: models::PreferencesModel,
    view: PreferencesView,
    changed: bool,
) -> Option<CallbackModel> {
    Some(CallbackModel { preferences: p, view, changed, render: changed })
}

/// The outcome of going to a menu.
pub open spec fn moved(p: models::PreferencesModel, view: PreferencesView) -> Option<
    CallbackModel,
> {
    Some(CallbackModel { preferences: p, view, changed: false, render: true })
}

/// The outcome of going to an extension group.
pub open spec fn group_outcome(p: models::PreferencesModel, w: Seq<char>) -> Option<CallbackModel> {
    match ExtensionGroup::of_word(w) {
        Some(g) => moved(p, PreferencesView::ExtensionGroup(g)),
        None => None,
    }
}

/// The outcome of choosing an extension.
pub open spec fn extension_outcome(p: models::PreferencesModel, ext: Seq<char>) -> Option<
    CallbackModel,
> {
    if text::among(COMMONS_SUPPORTED_EXTENSIONS@, parser::bare_extension(ext)) && group_of(
        ext,
    ) is Some {
        chosen(
            models::PreferencesModel { extension: Some(ext), ..p },
            PreferencesView::ExtensionGroup(group_of(ext)->0),
            p.extension != Some(ext),
        )
    } else {
        None
    }
}

/// The outcome of choosing a delivery mode.
pub open spec fn mode_outcome(p: models::PreferencesModel, w: Seq<char>) -> Option<CallbackModel> {
    match DeliveryMode::of_word(models::word(w)) {
        Some(m) => chosen(
            models::PreferencesModel { delivery_mode: m, ..p },
            PreferencesView::Main,
            p.delivery_mode != m,
        ),
        None => None,
    }
}

/// The outcome of choosing a file family.
pub open spec fn type_outcome(p: models::PreferencesModel, w: Seq<char>) -> Option<CallbackModel> {
    match FileType::of_word(models::word(w)) {
        Some(t) => chosen(
            models::PreferencesModel { file_type: t, ..p },
            PreferencesView::Main,
            p.file_type != t,
        ),
        None => None,
    }
}

/// The outcome of choosing an inline result count.
pub open spec fn inline_outcome(p: models::PreferencesModel, w: Seq<char>) -> Option<
    CallbackModel,
> {
    match numbers::unsigned_value(w, usize::MAX as nat) {
        Some(n) => chosen(
            models::PreferencesModel { inline_result_count: models::inline_count(n as usize), ..p },
            PreferencesView::Main,
            models::inline_count(p.inline_result_count) != models::inline_count(n as usize),
        ),
        None => None,
    }
}

/// The outcome of choosing how PDF files are sent.
pub open spec fn pdf_outcome(p: models::PreferencesModel, w: Seq<char>) -> Option<CallbackModel> {
    match DocumentPageMode::of_word(models::word(w)) {
        Some(m) => chosen(
            models::PreferencesModel { pdf_mode: m, ..p },
            PreferencesView::Main,
            p.pdf_mode != m,
        ),
        None => None,
    }
}

/// The outcome of choosing how DjVu files are sent.
pub open spec fn djvu_outcome(p: models::PreferencesModel, w: Seq<char>) -> Option<CallbackModel> {
    match DocumentPageMode::of_word(models::word(w)) {
        Some(m) => chosen(
            models::PreferencesModel { djvu_mode: m, ..p },
            PreferencesView::Main,
            p.djvu_mode != m,
        ),
        None => None,
    }
}

/// True of the buttons that are switches.
pub open spec fn is_toggle(action: Seq<char>) -> bool {
    ||| action == "toggle:category-counts"@
    ||| action == "toggle:sha1"@
    ||| action == "toggle:filesize"@
    ||| action == "toggle:preview-metadata"@
    ||| action == "toggle:rich-previews"@
    ||| action == "toggle:category-file-buttons"@
    ||| action == "toggle:pagination"@
}

/// Preferences after pressing a switch.
pub open spec fn with_toggle(p: models::PreferencesModel, action: Seq<char>) -> models::PreferencesModel {
    if action == "toggle:category-counts"@ {
        models::PreferencesModel { show_category_counts: !p.show_category_counts, ..p }
    } else if action == "toggle:sha1"@ {
        models::PreferencesModel { show_sha1: !p.show_sha1, ..p }
    } else if action == "toggle:filesize"@ {
        models::PreferencesModel { show_file_size: !p.show_file_size, ..p }
    } else if action == "toggle:preview-metadata"@ {
        models::PreferencesModel { show_preview_metadata: !p.show_preview_metadata, ..p }
    } else if action == "toggle:rich-previews"@ {
        models::PreferencesModel { rich_image_previews: !p.rich_image_previews, ..p }
    } else if action == "toggle:category-file-buttons"@ {
        models::PreferencesModel { category_file_buttons: !p.category_file_buttons, ..p }
    } else {
        models::PreferencesModel { pagination_enabled: !p.pagination_enabled, ..p }
    }
}

/// The outcome of pressing a button of the preferences menu.
pub open spec fn callback_outcome(action: Seq<char>, p: models::PreferencesModel) -> Option<
    CallbackModel,
> {
    if action == "main"@ {
        moved(p, PreferencesView::Main)
    } else if action == "ext"@ {
        moved(p, PreferencesView::ExtensionMenu)
    } else if action == "ext:off"@ {
        chosen(
            models::PreferencesModel { extension: None, ..p },
            PreferencesView::ExtensionMenu,
            p.extension is Some,
        )
    } else if is_toggle(action) {
        toggled(with_toggle(p, action))
    } else if text::begins(action, "ext:group:"@) {
        group_outcome(p, text::drop_prefixes(action, "ext:group:"@))
    } else if text::begins(action, "ext:set:"@) {
        extension_outcome(p, text::drop_prefixes(action, "ext:set:"@))
    } else if text::begins(action, "mode:"@) {
        mode_outcome(p, text::drop_prefixes(action, "mode:"@))
    } else if text::begins(action, "type:"@) {
        type_outcome(p, text::drop_prefixes(action, "type:"@))
    } else if text::begins(action, "inline:"@) {
        inline_outcome(p, text::drop_prefixes(action, "inline:"@))
    } else if text::begins(action, "pdf:"@) {
        pdf_outcome(p, text::drop_prefixes(action, "pdf:"@))
    } else if text::begins(action, "djvu:"@) {
        djvu_outcome(p, text::drop_prefixes(action, "djvu:"@))
    } else {
        None
    }
}

/// The value of an optional callback result.
pub open spec fn opt_result(r: Option<PreferenceCallbackResult>) -> Option<CallbackModel> {
    match r {
        Some(x) => Some(x@),
        None => None,
    }
}

/// Makes a callback result.
fn outcome(preferences: Preferences, view: PreferencesView, changed: bool, render: bool) -> (r:
    Option<PreferenceCallbackResult>)
    ensures
        opt_result(r) == Some(
            (CallbackModel { preferences: preferences@, view, changed, render }),
        ),
{
    Some(PreferenceCallbackResult { preferences, view, changed, render })
}

/// Returns true when an optional text is a given one.
fn is_text(s: &Option<String>, t: &str) -> (r: bool)
    ensures
        r == (text::opt_text(*s) == Some(t@)),
{
    match s {
        Some(x) => text::same(x.as_str(), t),
        None => false,
    }
}

/// Applies one switch of the preferences menu.
fn apply_toggle(action: &str, p: &mut Preferences) -> (r: bool)
    ensures
        r == is_toggle(action@),
        final(p)@ == (if r {
            with_toggle(old(p)@, action@)
        } else {
            old(p)@
        }),
{
    if text::same(action, "toggle:category-counts") {
        p.show_category_counts = !p.show_category_counts;
        return true;
    }
    if text::same(action, "toggle:sha1") {
        p.show_sha1 = !p.show_sha1;
        return true;
    }
    if text::same(action, "toggle:filesize") {
        p.show_file_size = !p.show_file_size;
        return true;
    }
    if text::same(action, "toggle:preview-metadata") {
        p.show_preview_metadata = !p.show_preview_metadata;
        return true;
    }
    if text::same(action, "toggle:rich-previews") {
        p.rich_image_previews = !p.rich_image_previews;
        return true;
    }
    if text::same(action, "toggle:category-file-buttons") {
        p.category_file_buttons = !p.category_file_buttons;
        return true;
    }
    if text::same(action, "toggle:pagination") {
        p.pagination_enabled = !p.pagination_enabled;
        return true;
    }
    false
}

/// Goes to an extension group.
fn choose_group(p: Preferences, name: &str) -> (r: Option<PreferenceCallbackResult>)
    ensures
        opt_result(r) == group_outcome(p@, name@),
{
    match ExtensionGroup::parse(name) {
        Some(group) => outcome(p, PreferencesView::ExtensionGroup(group), false, true),
        None => None,
    }
}

/// Chooses an extension.
fn choose_extension(p: Preferences, ext: String) -> (r: Option<PreferenceCallbackResult>)
    ensures
        opt_result(r) == extension_outcome(p@, ext@),
{
    if !parser::is_commons_supported_extension(ext.as_str()) {
        return None;
    }
    match extension_group_for(ext.as_str()) {
        Some(group) => {
            let changed: bool = !is_text(&p.extension, ext.as_str());
            let mut p = p;
            p.extension = Some(ext);
            outcome(p, PreferencesView::ExtensionGroup(group), changed, changed)
        },
        None => None,
    }
}

/// Chooses a delivery mode.
fn choose_mode(p: Preferences, word: &str) -> (r: Option<PreferenceCallbackResult>)
    ensures
        opt_result(r) == mode_outcome(p@, word@),
{
    match DeliveryMode::parse(word) {
        Some(mode) => {
            let changed: bool = p.delivery_mode != mode;
            let mut p = p;
            p.delivery_mode = mode;
            outcome(p, PreferencesView::Main, changed, changed)
        },
        None => None,
    }
}

/// Chooses a file family.
fn choose_type(p: Preferences, word: &str) -> (r: Option<PreferenceCallbackResult>)
    ensures
        opt_result(r) == type_outcome(p@, word@),
{
    match FileType::parse(word) {
        Some(file_type) => {
            let changed: bool = p.file_type != file_type;
            let mut p = p;
            p.file_type = file_type;
            outcome(p, PreferencesView::Main, changed, changed)
        },
        None => None,
    }
}

/// Chooses an inline result count.
fn choose_inline_count(p: Preferences, word: &str) -> (r: Option<PreferenceCallbackResult>)
    ensures
        opt_result(r) == inline_outcome(p@, word@),
{
    match numbers::parse_unsigned(word, usize::MAX as u64) {
        Some(n) => {
            let count: usize = normalize_inline_result_count(n as usize);
            let changed: bool = p.normalized_inline_result_count() != count;
            let mut p = p;
            p.inline_result_count = count;
            outcome(p, PreferencesView::Main, changed, changed)
        },
        None => None,
    }
}

/// Chooses how PDF files are sent.
fn choose_pdf_mode(p: Preferences, word: &str) -> (r: Option<PreferenceCallbackResult>)
    ensures
        opt_result(r) == pdf_outcome(p@, word@),
{
    match DocumentPageMode::parse(word) {
        Some(mode) => {
            let changed: bool = p.pdf_mode != mode;
            let mut p = p;
            p.pdf_mode = mode;
            outcome(p, PreferencesView::Main, changed, changed)
        },
        None => None,
    }
}

/// Chooses how DjVu files are sent.
fn choose_djvu_mode(p: Preferences, word: &str) -> (r: Option<PreferenceCallbackResult>)
    ensures
        opt_result(r) == djvu_outcome(p@, word@),
{
    match DocumentPageMode::parse(word) {
        Some(mode) => {
            let changed: bool = p.djvu_mode != mode;
            let mut p = p;
            p.djvu_mode = mode;
            outcome(p, PreferencesView::Main, changed, changed)
        },
        None => None,
    }
}

/// Applies one inline preference button callback.
pub fn apply_preference_callback(action: &str, preferences: Preferences) -> (r: Option<
    PreferenceCallbackResult,
>)
    ensures
        opt_result(r) == callback_outcome(action@, preferences@),
{
    let mut p = preferences;
    if text::same(action, "main") {
        return outcome(p, PreferencesView::Main, false, true);
    }
    if text::same(action, "ext") {
        return outcome(p, PreferencesView::ExtensionMenu, false, true);
    }
    if text::same(action, "ext:off") {
        let changed: bool = p.extension.is_some();
        p.extension = None;
        return outcome(p, PreferencesView::ExtensionMenu, changed, changed);
    }
    if apply_toggle(action, &mut p) {
        return outcome(p, PreferencesView::Main, true, true);
    }
    if text::starts_with(action, "ext:group:") {
        return choose_group(p, text::trim_start_text(action, "ext:group:").as_str());
    }
    if text::starts_with(action, "ext:set:") {
        return choose_extension(p, text::trim_start_text(action, "ext:set:"));
    }
    if text::starts_with(action, "mode:") {
        return choose_mode(p, text::trim_start_text(action, "mode:").as_str());
    }
    if text::starts_with(action, "type:") {
        return choose_type(p, text::trim_start_text(action, "type:").as_str());
    }
    if text::starts_with(action, "inline:") {
        return choose_inline_count(p, text::trim_start_text(action, "inline:").as_str());
    }
    if text::starts_with(action, "pdf:") {
        return choose_pdf_mode(p, text::trim_start_text(action, "pdf:").as_str());
    }
    if text::starts_with(action, "djvu:") {
        return choose_djvu_mode(p, text::trim_start_text(action, "djvu:").as_str());
    }
    None
}

/// Pressing a switch twice gives the preferences back.
pub proof fn law_toggle_twice(action: Seq<char>, p: models::PreferencesModel)
    requires
        text::begins(action, "toggle:"@),
        callback_outcome(action, p) is Some,
    ensures
        ({
            let once = (callback_outcome(action, p)->0).preferences;
            callback_outcome(action, once) is Some && (callback_outcome(
                action,
                once,
            )->0).preferences == p
        }),
{
    reveal_strlit("toggle:");
    reveal_strlit("main");
    reveal_strlit("ext");
    reveal_strlit("ext:off");
    reveal_strlit("ext:group:");
    reveal_strlit("ext:set:");
    reveal_strlit("mode:");
    reveal_strlit("type:");
    reveal_strlit("inline:");
    reveal_strlit("pdf:");
    reveal_strlit("djvu:");
    assert(action.take(7)[0] == 't');
    assert(action.take(7)[1] == 'o');
    assert(action[0] == 't' && action[1] == 'o');
    if text::begins(action, "ext:group:"@) {
        assert(action.take(10)[0] == 'e');
    }
    if text::begins(action, "ext:set:"@) {
        assert(action.take(8)[0] == 'e');
    }
    if text::begins(action, "mode:"@) {
        assert(action.take(5)[0] == 'm');
    }
    if text::begins(action, "type:"@) {
        assert(action.take(5)[1] == 'y');
    }
    if text::begins(action, "inline:"@) {
        assert(action.take(7)[0] == 'i');
    }
    if text::begins(action, "pdf:"@) {
        assert(action.take(4)[0] == 'p');
    }
    if text::begins(action, "djvu:"@) {
        assert(action.take(5)[0] == 'd');
    }
}

/// Where nothing changed, the preferences are those from before.
pub proof fn law_unchanged_callback(action: Seq<char>, p: models::PreferencesModel)
    requires
        models::inline_count(p.inline_result_count) == p.inline_result_count,
        callback_outcome(action, p) is Some,
        !(callback_outcome(action, p)->0).changed,
    ensures
        (callback_outcome(action, p)->0).preferences == p,
{
}

// Keyboards.

/// A label with a check mark where it is selected.
pub open spec fn marked(selected: bool, label: Seq<char>) -> Seq<char> {
    if selected {
        "✅ "@ + label
    } else {
        label
    }
}

/// Returns a check-mark label for exclusive choices.
pub fn checked_label(selected: bool, label: &str) -> (r: String)
    ensures
        r@ == marked(selected, label@),
{
    if selected {
        "✅ ".to_owned().concat(label)
    } else {
        label.to_owned()
    }
}

/// Returns a check-mark label for boolean toggles.
pub fn toggle_label(enabled: bool, label: &str) -> (r: String)
    ensures
        r@ == marked(enabled, label@),
{
    checked_label(enabled, label)
}

/// A button with a check mark where it is selected.
pub open spec fn choice(selected: bool, label: Seq<char>, data: Seq<char>) -> telegram::ButtonView {
    telegram::callback(marked(selected, label), data)
}

/// Makes a button with a check mark where it is selected.
fn choice_button(selected: bool, label: &str, data: &str) -> (r: InlineKeyboardButton)
    ensures
        r@ == choice(selected, label@, data@),
{
    callback_button(checked_label(selected, label), data.to_owned())
}

/// Creates one preference keyboard button.
fn pref_button(label: &str, data: &str) -> (r: InlineKeyboardButton)
    ensures
        r@ == telegram::callback(label@, data@),
{
    callback_button(label.to_owned(), data.to_owned())
}

/// The buttons for the inline result counts.
pub open spec fn inline_count_row(count: usize) -> Seq<telegram::ButtonView> {
    Seq::new(
        INLINE_RESULT_COUNT_OPTIONS@.len(),
        |i: int|
            {
                let n = numbers::numeral(INLINE_RESULT_COUNT_OPTIONS@[i] as nat);
                choice(
                    models::inline_count(count) == INLINE_RESULT_COUNT_OPTIONS@[i],
                    "Inline "@ + n,
                    "pref:inline:"@ + n,
                )
            },
    )
}

/// Builds the buttons for the inline result counts.
fn inline_count_buttons(count: usize) -> (r: Vec<InlineKeyboardButton>)
    ensures
        telegram::row_view(r@) == inline_count_row(count),
{
    let options = INLINE_RESULT_COUNT_OPTIONS;
    let current: usize = normalize_inline_result_count(count);
    let ghost all = inline_count_row(count);
    let mut row: Vec<InlineKeyboardButton> = Vec::new();
    let mut i: usize = 0;
    assert(telegram::row_view(row@) =~= all.take(0));
    while i < options.len()
        invariant
            i <= options.len(),
            options@ == INLINE_RESULT_COUNT_OPTIONS@,
            current == models::inline_count(count),
            all == inline_count_row(count),
            telegram::row_view(row@) == all.take(i as int),
        decreases options.len() - i,
    {
        let n = numbers::decimal(options[i] as u64);
        let button = choice_button(
            current == options[i],
            "Inline ".to_owned().concat(n.as_str()).as_str(),
            "pref:inline:".to_owned().concat(n.as_str()).as_str(),
        );
        let ghost was = row@;
        row.push(button);
        assert(telegram::row_view(row@) =~= telegram::row_view(was).push(button@));
        assert(all.take(i + 1) =~= all.take(i as int).push(all[i as int]));
        i += 1;
    }
    assert(all.take(options.len() as int) =~= all);
    row
}

/// The buttons for the first two delivery modes.
pub open spec fn mode_row(p: models::PreferencesModel) -> Seq<telegram::ButtonView> {
    seq![
        choice(p.delivery_mode == DeliveryMode::Buttons, "Buttons"@, "pref:mode:buttons"@),
        choice(p.delivery_mode == DeliveryMode::Links10, "Links10"@, "pref:mode:links10"@),
    ]
}

/// Builds the buttons for the first two delivery modes.
fn mode_row_buttons(p: &Preferences) -> (r: Vec<InlineKeyboardButton>)
    ensures
        telegram::row_view(r@) == mode_row(p@),
{
    row_of_two(
        choice_button(p.delivery_mode == DeliveryMode::Buttons, "Buttons", "pref:mode:buttons"),
        choice_button(p.delivery_mode == DeliveryMode::Links10, "Links10", "pref:mode:links10"),
    )
}

/// The buttons for the delivery modes with pictures.
pub open spec fn image_mode_row(p: models::PreferencesModel) -> Seq<telegram::ButtonView> {
    seq![
        choice(p.delivery_mode == DeliveryMode::Images10, "Images10"@, "pref:mode:images10"@),
        choice(p.delivery_mode == DeliveryMode::Images20, "Images20"@, "pref:mode:images20"@),
    ]
}

/// Builds the buttons for the delivery modes with pictures.
fn image_mode_row_buttons(p: &Preferences) -> (r: Vec<InlineKeyboardButton>)
    ensures
        telegram::row_view(r@) == image_mode_row(p@),
{
    row_of_two(
        choice_button(p.delivery_mode == DeliveryMode::Images10, "Images10", "pref:mode:images10"),
        choice_button(p.delivery_mode == DeliveryMode::Images20, "Images20", "pref:mode:images20"),
    )
}

/// The buttons for the first two file families.
pub open spec fn type_row(p: models::PreferencesModel) -> Seq<telegram::ButtonView> {
    seq![
        choice(p.file_type == FileType::All, "All"@, "pref:type:all"@),
        choice(p.file_type == FileType::Images, "Images"@, "pref:type:images"@),
    ]
}

/// Builds the buttons for the first two file families.
fn type_row_buttons(p: &Preferences) -> (r: Vec<InlineKeyboardButton>)
    ensures
        telegram::row_view(r@) == type_row(p@),
{
    row_of_two(
        choice_button(p.file_type == FileType::All, "All", "pref:type:all"),
        choice_button(p.file_type == FileType::Images, "Images", "pref:type:images"),
    )
}

/// The buttons for the other file families.
pub open spec fn media_type_row(p: models::PreferencesModel) -> Seq<telegram::ButtonView> {
    seq![
        choice(p.file_type == FileType::Audio, "Audio"@, "pref:type:audio"@),
        choice(p.file_type == FileType::Video, "Video"@, "pref:type:video"@),
    ]
}

/// Builds the buttons for the other file families.
fn media_type_row_buttons(p: &Preferences) -> (r: Vec<InlineKeyboardButton>)
    ensures
        telegram::row_view(r@) == media_type_row(p@),
{
    row_of_two(
        choice_button(p.file_type == FileType::Audio, "Audio", "pref:type:audio"),
        choice_button(p.file_type == FileType::Video, "Video", "pref:type:video"),
    )
}

/// The buttons for what button labels show.
pub open spec fn label_row(p: models::PreferencesModel) -> Seq<telegram::ButtonView> {
    seq![
        choice(p.show_category_counts, "Category counts"@, "pref:toggle:category-counts"@),
        choice(p.show_file_size, "File size labels"@, "pref:toggle:filesize"@),
    ]
}

/// Builds the buttons for what button labels show.
fn label_row_buttons(p: &Preferences) -> (r: Vec<InlineKeyboardButton>)
    ensures
        telegram::row_view(r@) == label_row(p@),
{
    row_of_two(
        choice_button(p.show_category_counts, "Category counts", "pref:toggle:category-counts"),
        choice_button(p.show_file_size, "File size labels", "pref:toggle:filesize"),
    )
}

/// The buttons for how previews look.
pub open spec fn preview_row(p: models::PreferencesModel) -> Seq<telegram::ButtonView> {
    seq![
        choice(p.show_preview_metadata, "Preview metadata"@, "pref:toggle:preview-metadata"@),
        choice(p.rich_image_previews, "Rich previews"@, "pref:toggle:rich-previews"@),
    ]
}

/// Builds the buttons for how previews look.
fn preview_row_buttons(p: &Preferences) -> (r: Vec<InlineKeyboardButton>)
    ensures
        telegram::row_view(r@) == preview_row(p@),
{
    row_of_two(
        choice_button(p.show_preview_metadata, "Preview metadata", "pref:toggle:preview-metadata"),
        choice_button(p.rich_image_previews, "Rich previews", "pref:toggle:rich-previews"),
    )
}

/// The buttons for how the files of a category are shown.
pub open spec fn category_file_row(p: models::PreferencesModel) -> Seq<telegram::ButtonView> {
    seq![
        choice(p.category_file_buttons, "Category file buttons"@, "pref:toggle:category-file-buttons"@),
    ]
}

/// Builds the buttons for how the files of a category are shown.
fn category_file_row_buttons(p: &Preferences) -> (r: Vec<InlineKeyboardButton>)
    ensures
        telegram::row_view(r@) == category_file_row(p@),
{
    row_of(
        choice_button(p.category_file_buttons, "Category file buttons", "pref:toggle:category-file-buttons"),
    )
}

/// The buttons for hashes and pages.
pub open spec fn detail_row(p: models::PreferencesModel) -> Seq<telegram::ButtonView> {
    seq![
        choice(p.show_sha1, "SHA-1"@, "pref:toggle:sha1"@),
        choice(p.pagination_enabled, "Pagination"@, "pref:toggle:pagination"@),
    ]
}

/// Builds the buttons for hashes and pages.
fn detail_row_buttons(p: &Preferences) -> (r: Vec<InlineKeyboardButton>)
    ensures
        telegram::row_view(r@) == detail_row(p@),
{
    row_of_two(
        choice_button(p.show_sha1, "SHA-1", "pref:toggle:sha1"),
        choice_button(p.pagination_enabled, "Pagination", "pref:toggle:pagination"),
    )
}

/// The buttons for PDF files.
pub open spec fn pdf_row(p: models::PreferencesModel) -> Seq<telegram::ButtonView> {
    seq![
        choice(p.pdf_mode == DocumentPageMode::Original, "PDF original"@, "pref:pdf:original"@),
        choice(p.pdf_mode == DocumentPageMode::RenderedPages, "PDF pages"@, "pref:pdf:rendered"@),
    ]
}

/// Builds the buttons for PDF files.
fn pdf_row_buttons(p: &Preferences) -> (r: Vec<InlineKeyboardButton>)
    ensures
        telegram::row_view(r@) == pdf_row(p@),
{
    row_of_two(
        choice_button(p.pdf_mode == DocumentPageMode::Original, "PDF original", "pref:pdf:original"),
        choice_button(p.pdf_mode == DocumentPageMode::RenderedPages, "PDF pages", "pref:pdf:rendered"),
    )
}

/// The buttons for DjVu files.
pub open spec fn djvu_row(p: models::PreferencesModel) -> Seq<telegram::ButtonView> {
    seq![
        choice(p.djvu_mode == DocumentPageMode::Original, "DjVu original"@, "pref:djvu:original"@),
        choice(p.djvu_mode == DocumentPageMode::RenderedPages, "DjVu pages"@, "pref:djvu:rendered"@),
    ]
}

/// Builds the buttons for DjVu files.
fn djvu_row_buttons(p: &Preferences) -> (r: Vec<InlineKeyboardButton>)
    ensures
        telegram::row_view(r@) == djvu_row(p@),
{
    row_of_two(
        choice_button(p.djvu_mode == DocumentPageMode::Original, "DjVu original", "pref:djvu:original"),
        choice_button(p.djvu_mode == DocumentPageMode::RenderedPages, "DjVu pages", "pref:djvu:rendered"),
    )
}

/// The button that shows the extension.
pub open spec fn extension_choice_row(p: models::PreferencesModel) -> Seq<telegram::ButtonView> {
    seq![
        telegram::callback(
            "Extension: "@ + (match p.extension {
                Some(e) => e,
                None => "all"@,
            }),
            "pref:ext"@,
        ),
    ]
}

/// Builds the button that shows the extension.
fn extension_choice_buttons(p: &Preferences) -> (r: Vec<InlineKeyboardButton>)
    ensures
        telegram::row_view(r@) == extension_choice_row(p@),
{
    let label = match &p.extension {
        Some(e) => "Extension: ".to_owned().concat(e.as_str()),
        None => "Extension: ".to_owned().concat("all"),
    };
    row_of(pref_button(label.as_str(), "pref:ext"))
}

/// The rows of the main preferences menu.
pub open spec fn main_menu(p: models::PreferencesModel) -> Seq<Seq<telegram::ButtonView>> {
    seq![
        mode_row(p),
        image_mode_row(p),
        type_row(p),
        media_type_row(p),
        label_row(p),
        preview_row(p),
        category_file_row(p),
        detail_row(p),
        inline_count_row(p.inline_result_count),
        pdf_row(p),
        djvu_row(p),
        extension_choice_row(p),
    ]
}

/// Builds the main preferences keyboard.
pub fn main_preferences_keyboard(p: &Preferences) -> (r: Vec<Vec<InlineKeyboardButton>>)
    ensures
        telegram::rows_view(r@) == main_menu(p@),
{
    let mut rows: Vec<Vec<InlineKeyboardButton>> = Vec::new();
    assert(telegram::rows_view(rows@) =~= seq![]);
    push_row(&mut rows, mode_row_buttons(p));
    push_row(&mut rows, image_mode_row_buttons(p));
    push_row(&mut rows, type_row_buttons(p));
    push_row(&mut rows, media_type_row_buttons(p));
    push_row(&mut rows, label_row_buttons(p));
    push_row(&mut rows, preview_row_buttons(p));
    push_row(&mut rows, category_file_row_buttons(p));
    push_row(&mut rows, detail_row_buttons(p));
    push_row(&mut rows, inline_count_buttons(p.inline_result_count));
    push_row(&mut rows, pdf_row_buttons(p));
    push_row(&mut rows, djvu_row_buttons(p));
    push_row(&mut rows, extension_choice_buttons(p));
    rows
}

/// The button of an extension group.
pub open spec fn group_button(p: models::PreferencesModel, g: ExtensionGroup) -> telegram::ButtonView {
    choice(
        p.extension is Some && text::among(g.members(), p.extension->0),
        g.title(),
        "pref:ext:group:"@ + g.word(),
    )
}

/// Builds a group button with a check mark when the current extension belongs to it.
fn extension_group_button(p: &Preferences, group: ExtensionGroup) -> (r: InlineKeyboardButton)
    ensures
        r@ == group_button(p@, group),
{
    let selected: bool = match &p.extension {
        Some(e) => group.contains(e.as_str()),
        None => false,
    };
    choice_button(
        selected,
        group.label(),
        "pref:ext:group:".to_owned().concat(group.callback_value()).as_str(),
    )
}

/// The rows of the extension menu.
pub open spec fn extension_menu(p: models::PreferencesModel) -> Seq<Seq<telegram::ButtonView>> {
    seq![
        seq![choice(p.extension is None, "All extensions"@, "pref:ext:off"@)],
        seq![group_button(p, ExtensionGroup::Images), group_button(p, ExtensionGroup::Audio)],
        seq![group_button(p, ExtensionGroup::Video), group_button(p, ExtensionGroup::Documents)],
        seq![group_button(p, ExtensionGroup::Other)],
        seq![telegram::callback("Back"@, "pref:main"@)],
    ]
}

/// Builds the extension group chooser keyboard.
pub fn extension_menu_keyboard(p: &Preferences) -> (r: Vec<Vec<InlineKeyboardButton>>)
    ensures
        telegram::rows_view(r@) == extension_menu(p@),
{
    let mut rows: Vec<Vec<InlineKeyboardButton>> = Vec::new();
    assert(telegram::rows_view(rows@) =~= seq![]);
    push_row(
        &mut rows,
        row_of(choice_button(p.extension.is_none(), "All extensions", "pref:ext:off")),
    );
    push_row(
        &mut rows,
        row_of_two(
            extension_group_button(p, ExtensionGroup::Images),
            extension_group_button(p, ExtensionGroup::Audio),
        ),
    );
    push_row(
        &mut rows,
        row_of_two(
            extension_group_button(p, ExtensionGroup::Video),
            extension_group_button(p, ExtensionGroup::Documents),
        ),
    );
    push_row(&mut rows, row_of(extension_group_button(p, ExtensionGroup::Other)));
    push_row(&mut rows, row_of(pref_button("Back", "pref:main")));
    assert(telegram::rows_view(rows@) =~= extension_menu(p@));
    rows
}

/// The button of an extension.
pub open spec fn extension_button(p: models::PreferencesModel, ext: Seq<char>) -> telegram::ButtonView {
    choice(p.extension == Some(ext), ext, "pref:ext:set:"@ + ext)
}

/// The buttons of extensions.
pub open spec fn extension_row(p: models::PreferencesModel, exts: Seq<&'static str>) -> Seq<
    telegram::ButtonView,
> {
    Seq::new(exts.len(), |i: int| extension_button(p, exts[i]@))
}

/// The rows of extensions from `i` on, three to a row.
pub open spec fn extension_rows(p: models::PreferencesModel, exts: Seq<&'static str>, i: int) -> Seq<
    Seq<telegram::ButtonView>,
>
    decreases exts.len() - i,
{
    if i < 0 || i >= exts.len() {
        seq![]
    } else if i + 3 < exts.len() {
        seq![extension_row(p, exts.subrange(i, i + 3))] + extension_rows(p, exts, i + 3)
    } else {
        seq![extension_row(p, exts.subrange(i, exts.len() as int))]
    }
}

/// The rows of the menu of an extension group.
pub open spec fn group_menu(p: models::PreferencesModel, g: ExtensionGroup) -> Seq<
    Seq<telegram::ButtonView>,
> {
    extension_rows(p, g.members(), 0).push(
        seq![telegram::callback("Clear extension"@, "pref:ext:off"@)],
    ).push(
        seq![
            telegram::callback("Back"@, "pref:ext"@),
            telegram::callback("Main"@, "pref:main"@),
        ],
    )
}

/// Builds the buttons of some extensions.
fn extension_buttons(p: &Preferences, exts: &Vec<&'static str>, from: usize, to: usize) -> (r: Vec<
    InlineKeyboardButton,
>)
    requires
        from <= to <= exts@.len(),
    ensures
        telegram::row_view(r@) == extension_row(p@, exts@.subrange(from as int, to as int)),
{
    let ghost part = exts@.subrange(from as int, to as int);
    let ghost all = extension_row(p@, part);
    let mut row: Vec<InlineKeyboardButton> = Vec::new();
    let mut i: usize = from;
    assert(telegram::row_view(row@) =~= all.take(0));
    while i < to
        invariant
            from <= i <= to <= exts@.len(),
            part == exts@.subrange(from as int, to as int),
            all == extension_row(p@, part),
            telegram::row_view(row@) == all.take(i - from),
        decreases to - i,
    {
        let ext: &'static str = exts[i];
        let button = choice_button(
            is_text(&p.extension, ext),
            ext,
            "pref:ext:set:".to_owned().concat(ext).as_str(),
        );
        let ghost was = row@;
        row.push(button);
        proof {
            assert(part[i - from] == ext);
            assert(telegram::row_view(row@) =~= telegram::row_view(was).push(button@));
            assert(all.take(i + 1 - from) =~= all.take(i - from).push(all[i - from]));
        }
        i += 1;
    }
    assert(all.take(to - from) =~= all);
    row
}

/// Builds the concrete extension selector keyboard.
pub fn extension_group_keyboard(p: &Preferences, group: ExtensionGroup) -> (r: Vec<
    Vec<InlineKeyboardButton>,
>)
    ensures
        telegram::rows_view(r@) == group_menu(p@, group),
{
    let exts = group.extensions();
    let ghost all = extension_rows(p@, exts@, 0);
    let mut rows: Vec<Vec<InlineKeyboardButton>> = Vec::new();
    let mut i: usize = 0;
    assert(telegram::rows_view(rows@) =~= seq![]);
    assert(all =~= telegram::rows_view(rows@) + all);
    while i < exts.len()
        invariant
            i <= exts.len(),
            all == telegram::rows_view(rows@) + extension_rows(p@, exts@, i as int),
        decreases exts.len() - i,
    {
        let to: usize = if exts.len() - i > 3 {
            i + 3
        } else {
            exts.len()
        };
        let row = extension_buttons(p, &exts, i, to);
        let ghost before = telegram::rows_view(rows@);
        let ghost shown = telegram::row_view(row@);
        push_row(&mut rows, row);
        proof {
            let rest = extension_rows(p@, exts@, to as int);
            assert(before + (seq![shown] + rest) =~= before.push(shown) + rest);
            if to == exts@.len() {
                assert(seq![shown] + rest =~= seq![shown]);
            }
        }
        i = to;
    }
    assert(telegram::rows_view(rows@) =~= all);
    push_row(&mut rows, row_of(pref_button("Clear extension", "pref:ext:off")));
    push_row(
        &mut rows,
        row_of_two(pref_button("Back", "pref:ext"), pref_button("Main", "pref:main")),
    );
    rows
}

/// The rows of a view of the preferences.
pub open spec fn menu_of(p: models::PreferencesModel, view: PreferencesView) -> Seq<
    Seq<telegram::ButtonView>,
> {
    match view {
        PreferencesView::Main => main_menu(p),
        PreferencesView::ExtensionMenu => extension_menu(p),
        PreferencesView::ExtensionGroup(g) => group_menu(p, g),
    }
}

/// Returns the preference keyboard for one view.
pub fn preferences_keyboard(preferences: &Preferences, view: PreferencesView) -> (r:
    InlineKeyboardMarkup)
    ensures
        telegram::rows_view(r.inline_keyboard@) == menu_of(preferences@, view),
{
    let rows = match view {
        PreferencesView::Main => main_preferences_keyboard(preferences),
        PreferencesView::ExtensionMenu => extension_menu_keyboard(preferences),
        PreferencesView::ExtensionGroup(group) => extension_group_keyboard(preferences, group),
    };
    InlineKeyboardMarkup { inline_keyboard: rows }
}

// What the buttons do.

/// True of a button whose press is understood: its data names an action of the preferences menu.
pub open spec fn understood(b: telegram::ButtonView, p: models::PreferencesModel) -> bool {
    &&& b.callback_data is Some
    &&& text::begins(b.callback_data->0, "pref:"@)
    &&& callback_outcome((b.callback_data->0).skip("pref:"@.len() as int), p) is Some
}

/// A button is understood where the action in its data is.
proof fn lemma_understood(b: telegram::ButtonView, action: Seq<char>, p: models::PreferencesModel)
    requires
        b.callback_data == Some("pref:"@ + action),
        callback_outcome(action, p) is Some,
    ensures
        understood(b, p),
{
    let data = "pref:"@ + action;
    assert(data.take("pref:"@.len() as int) =~= "pref:"@);
    assert(data.skip("pref:"@.len() as int) =~= action);
}

/// What follows a prefix is what is left without it.
proof fn lemma_without_prefix(prefix: Seq<char>, rest: Seq<char>)
    requires
        prefix.len() > 0,
        !text::begins(rest, prefix),
    ensures
        text::begins(prefix + rest, prefix),
        text::drop_prefixes(prefix + rest, prefix) == rest,
{
    let all = prefix + rest;
    assert(all.take(prefix.len() as int) =~= prefix);
    assert(all.skip(prefix.len() as int) =~= rest);
    reveal_with_fuel(text::drop_prefixes, 2);
}

/// An action with a prefix is the one that the prefix names.
pub proof fn lemma_prefixed(prefix: Seq<char>, rest: Seq<char>, p: models::PreferencesModel)
    requires
        !text::begins(rest, prefix),
    ensures
        prefix == "ext:group:"@ ==> callback_outcome(prefix + rest, p) == group_outcome(p, rest),
        prefix == "ext:set:"@ ==> callback_outcome(prefix + rest, p) == extension_outcome(p, rest),
        prefix == "mode:"@ ==> callback_outcome(prefix + rest, p) == mode_outcome(p, rest),
        prefix == "type:"@ ==> callback_outcome(prefix + rest, p) == type_outcome(p, rest),
        prefix == "inline:"@ ==> callback_outcome(prefix + rest, p) == inline_outcome(p, rest),
        prefix == "pdf:"@ ==> callback_outcome(prefix + rest, p) == pdf_outcome(p, rest),
        prefix == "djvu:"@ ==> callback_outcome(prefix + rest, p) == djvu_outcome(p, rest),
{
    reveal_strlit("main");
    reveal_strlit("ext");
    reveal_strlit("ext:off");
    reveal_strlit("toggle:category-counts");
    reveal_strlit("toggle:sha1");
    reveal_strlit("toggle:filesize");
    reveal_strlit("toggle:preview-metadata");
    reveal_strlit("toggle:rich-previews");
    reveal_strlit("toggle:category-file-buttons");
    reveal_strlit("toggle:pagination");
    reveal_strlit("ext:group:");
    reveal_strlit("ext:set:");
    reveal_strlit("mode:");
    reveal_strlit("type:");
    reveal_strlit("inline:");
    reveal_strlit("pdf:");
    reveal_strlit("djvu:");
    let all = prefix + rest;
    if prefix.len() >= 4 {
        lemma_without_prefix(prefix, rest);
        assert(all[0] == prefix[0] && all[1] == prefix[1] && all[3] == prefix[3]);
    }
    if prefix == "ext:group:"@ || prefix == "ext:set:"@ {
        assert(all[4] == prefix[4]);
    }
    if text::begins(all, "ext:group:"@) {
        assert(all.take(10)[0] == 'e' && all.take(10)[4] == 'g');
    }
    if text::begins(all, "ext:set:"@) {
        assert(all.take(8)[0] == 'e');
    }
    if text::begins(all, "mode:"@) {
        assert(all.take(5)[0] == 'm');
    }
    if text::begins(all, "type:"@) {
        assert(all.take(5)[0] == 't');
    }
    if text::begins(all, "inline:"@) {
        assert(all.take(7)[0] == 'i');
    }
    if text::begins(all, "pdf:"@) {
        assert(all.take(4)[0] == 'p');
    }
}

/// The action that chooses a delivery mode is understood.
proof fn lemma_mode_action(m: DeliveryMode, p: models::PreferencesModel)
    ensures
        callback_outcome("mode:"@ + m.pref_word(), p) is Some,
{
    let w = m.pref_word();
    reveal_strlit("mode:");
    reveal_strlit("buttons");
    reveal_strlit("links10");
    reveal_strlit("images10");
    reveal_strlit("images20");
    if text::begins(w, "mode:"@) {
        assert(w.take(5)[0] == 'm');
    }
    lemma_prefixed("mode:"@, w, p);
    models::law_delivery_mode_round_trip(m);
}

/// The action that chooses a file family is understood.
proof fn lemma_type_action(t: FileType, p: models::PreferencesModel)
    ensures
        callback_outcome("type:"@ + t.pref_word(), p) is Some,
{
    let w = t.pref_word();
    reveal_strlit("type:");
    reveal_strlit("all");
    reveal_strlit("images");
    reveal_strlit("audio");
    reveal_strlit("video");
    if text::begins(w, "type:"@) {
        assert(w.take(5)[0] == 't');
    }
    lemma_prefixed("type:"@, w, p);
    models::law_file_type_round_trip(t);
}

/// The actions that choose how documents are sent are understood.
proof fn lemma_page_mode_actions(m: DocumentPageMode, p: models::PreferencesModel)
    ensures
        callback_outcome("pdf:"@ + m.pref_word(), p) is Some,
        callback_outcome("djvu:"@ + m.pref_word(), p) is Some,
{
    let w = m.pref_word();
    reveal_strlit("pdf:");
    reveal_strlit("djvu:");
    reveal_strlit("original");
    reveal_strlit("rendered");
    if text::begins(w, "pdf:"@) {
        assert(w.take(4)[0] == 'p');
    }
    if text::begins(w, "djvu:"@) {
        assert(w.take(5)[0] == 'd');
    }
    lemma_prefixed("pdf:"@, w, p);
    lemma_prefixed("djvu:"@, w, p);
    models::law_page_mode_round_trip(m);
}

/// The action that chooses a number of inline results is understood.
proof fn lemma_inline_action(n: usize, p: models::PreferencesModel)
    ensures
        callback_outcome("inline:"@ + numbers::numeral(n as nat), p) is Some,
{
    let w = numbers::numeral(n as nat);
    numbers::law_numeral_round_trip(n as nat);
    reveal_strlit("inline:");
    assert(w.len() > 0 && text::is_digit(w[0]));
    if text::begins(w, "inline:"@) {
        assert(w.take(7)[0] == 'i');
    }
    lemma_prefixed("inline:"@, w, p);
}

/// The action that shows an extension group is understood.
proof fn lemma_group_action(g: ExtensionGroup, p: models::PreferencesModel)
    ensures
        callback_outcome("ext:group:"@ + g.word(), p) is Some,
{
    let w = g.word();
    reveal_strlit("ext:group:");
    reveal_strlit("images");
    reveal_strlit("audio");
    reveal_strlit("video");
    reveal_strlit("documents");
    reveal_strlit("other");
    lemma_prefixed("ext:group:"@, w, p);
    law_group_round_trip(g);
}

/// True of a short text of lower-case ASCII letters and digits.
spec fn plain(s: Seq<char>) -> bool {
    &&& 0 < s.len() < 8
    &&& forall|i: int|
        0 <= i < s.len() ==> 'a' <= #[trigger] s[i] <= 'z' || '0' <= s[i] <= '9'
}

/// The image extensions are supported ones.
proof fn lemma_image_extensions(i: int)
    requires
        0 <= i < COMMONS_IMAGE_EXTENSIONS@.len(),
    ensures
        text::among(COMMONS_SUPPORTED_EXTENSIONS@, COMMONS_IMAGE_EXTENSIONS@[i]@),
        plain(COMMONS_IMAGE_EXTENSIONS@[i]@),
{
    reveal_strlit("gif");
    reveal_strlit("jpeg");
    reveal_strlit("jpg");
    reveal_strlit("png");
    reveal_strlit("svg");
    reveal_strlit("tif");
    reveal_strlit("tiff");
    reveal_strlit("webp");
    reveal_strlit("xcf");
    if i == 0 {
        assert(COMMONS_SUPPORTED_EXTENSIONS@[2]@ == "gif"@);
    }
    if i == 1 {
        assert(COMMONS_SUPPORTED_EXTENSIONS@[3]@ == "jpeg"@);
    }
    if i == 2 {
        assert(COMMONS_SUPPORTED_EXTENSIONS@[4]@ == "jpg"@);
    }
    if i == 3 {
        assert(COMMONS_SUPPORTED_EXTENSIONS@[15]@ == "png"@);
    }
    if i == 4 {
        assert(COMMONS_SUPPORTED_EXTENSIONS@[17]@ == "svg"@);
    }
    if i == 5 {
        assert(COMMONS_SUPPORTED_EXTENSIONS@[18]@ == "tif"@);
    }
    if i == 6 {
        assert(COMMONS_SUPPORTED_EXTENSIONS@[19]@ == "tiff"@);
    }
    if i == 7 {
        assert(COMMONS_SUPPORTED_EXTENSIONS@[22]@ == "webp"@);
    }
    if i == 8 {
        assert(COMMONS_SUPPORTED_EXTENSIONS@[23]@ == "xcf"@);
    }
}

/// The audio extensions are supported ones.
proof fn lemma_audio_extensions(i: int)
    requires
        0 <= i < COMMONS_AUDIO_EXTENSIONS@.len(),
    ensures
        text::among(COMMONS_SUPPORTED_EXTENSIONS@, COMMONS_AUDIO_EXTENSIONS@[i]@),
        plain(COMMONS_AUDIO_EXTENSIONS@[i]@),
{
    reveal_strlit("flac");
    reveal_strlit("mid");
    reveal_strlit("midi");
    reveal_strlit("mp3");
    reveal_strlit("oga");
    reveal_strlit("ogg");
    reveal_strlit("opus");
    reveal_strlit("wav");
    if i == 0 {
        assert(COMMONS_SUPPORTED_EXTENSIONS@[1]@ == "flac"@);
    }
    if i == 1 {
        assert(COMMONS_SUPPORTED_EXTENSIONS@[5]@ == "mid"@);
    }
    if i == 2 {
        assert(COMMONS_SUPPORTED_EXTENSIONS@[6]@ == "midi"@);
    }
    if i == 3 {
        assert(COMMONS_SUPPORTED_EXTENSIONS@[7]@ == "mp3"@);
    }
    if i == 4 {
        assert(COMMONS_SUPPORTED_EXTENSIONS@[10]@ == "oga"@);
    }
    if i == 5 {
        assert(COMMONS_SUPPORTED_EXTENSIONS@[11]@ == "ogg"@);
    }
    if i == 6 {
        assert(COMMONS_SUPPORTED_EXTENSIONS@[13]@ == "opus"@);
    }
    if i == 7 {
        assert(COMMONS_SUPPORTED_EXTENSIONS@[20]@ == "wav"@);
    }
}

/// The video extensions are supported ones.
proof fn lemma_video_extensions(i: int)
    requires
        0 <= i < COMMONS_VIDEO_EXTENSIONS@.len(),
    ensures
        text::among(COMMONS_SUPPORTED_EXTENSIONS@, COMMONS_VIDEO_EXTENSIONS@[i]@),
        plain(COMMONS_VIDEO_EXTENSIONS@[i]@),
{
    reveal_strlit("mpeg");
    reveal_strlit("mpg");
    reveal_strlit("ogv");
    reveal_strlit("webm");
    if i == 0 {
        assert(COMMONS_SUPPORTED_EXTENSIONS@[8]@ == "mpeg"@);
    }
    if i == 1 {
        assert(COMMONS_SUPPORTED_EXTENSIONS@[9]@ == "mpg"@);
    }
    if i == 2 {
        assert(COMMONS_SUPPORTED_EXTENSIONS@[12]@ == "ogv"@);
    }
    if i == 3 {
        assert(COMMONS_SUPPORTED_EXTENSIONS@[21]@ == "webm"@);
    }
}

/// The document extensions are supported ones.
proof fn lemma_document_extensions(i: int)
    requires
        0 <= i < COMMONS_DOCUMENT_EXTENSIONS@.len(),
    ensures
        text::among(COMMONS_SUPPORTED_EXTENSIONS@, COMMONS_DOCUMENT_EXTENSIONS@[i]@),
        plain(COMMONS_DOCUMENT_EXTENSIONS@[i]@),
{
    reveal_strlit("djvu");
    reveal_strlit("pdf");
    if i == 0 {
        assert(COMMONS_SUPPORTED_EXTENSIONS@[0]@ == "djvu"@);
    }
    if i == 1 {
        assert(COMMONS_SUPPORTED_EXTENSIONS@[14]@ == "pdf"@);
    }
}

/// The model extensions are supported ones.
proof fn lemma_model_extensions(i: int)
    requires
        0 <= i < COMMONS_MODEL_EXTENSIONS@.len(),
    ensures
        text::among(COMMONS_SUPPORTED_EXTENSIONS@, COMMONS_MODEL_EXTENSIONS@[i]@),
        plain(COMMONS_MODEL_EXTENSIONS@[i]@),
{
    reveal_strlit("stl");
    if i == 0 {
        assert(COMMONS_SUPPORTED_EXTENSIONS@[16]@ == "stl"@);
    }
}

/// The action that chooses an extension of a group is understood.
pub proof fn lemma_extension_action(g: ExtensionGroup, i: int, p: models::PreferencesModel)
    requires
        0 <= i < g.members().len(),
    ensures
        callback_outcome("ext:set:"@ + g.members()[i]@, p) is Some,
{
    let e = g.members()[i]@;
    match g {
        ExtensionGroup::Images => lemma_image_extensions(i),
        ExtensionGroup::Audio => lemma_audio_extensions(i),
        ExtensionGroup::Video => lemma_video_extensions(i),
        ExtensionGroup::Documents => lemma_document_extensions(i),
        ExtensionGroup::Other => lemma_model_extensions(i),
    }
    assert(text::among(g.members(), e));
    assert(group_of(e) is Some);
    assert(e[0] != '.');
    assert(text::lowered(e) =~= e);
    assert(parser::bare_extension(e) == e);
    reveal_strlit("ext:set:");
    lemma_prefixed("ext:set:"@, e, p);
}

/// The extensions of a group are supported, short, and in small letters.
pub proof fn lemma_member_is_short(g: ExtensionGroup, i: int)
    requires
        0 <= i < g.members().len(),
    ensures
        0 < g.members()[i]@.len() < 8,
        text::among(COMMONS_SUPPORTED_EXTENSIONS@, g.members()[i]@),
        text::lowered(g.members()[i]@) == g.members()[i]@,
        g.members()[i]@[0] != '.',
{
    match g {
        ExtensionGroup::Images => lemma_image_extensions(i),
        ExtensionGroup::Audio => lemma_audio_extensions(i),
        ExtensionGroup::Video => lemma_video_extensions(i),
        ExtensionGroup::Documents => lemma_document_extensions(i),
        ExtensionGroup::Other => lemma_model_extensions(i),
    }
    let e = g.members()[i]@;
    assert(text::lowered(e) =~= e);
}

/// The actions that go to a menu, and the one that clears the extension, are understood.
proof fn lemma_plain_actions(p: models::PreferencesModel)
    ensures
        callback_outcome("main"@, p) is Some,
        callback_outcome("ext"@, p) is Some,
        callback_outcome("ext:off"@, p) is Some,
{
}

/// The actions of switches are understood.
proof fn lemma_toggle_action(action: Seq<char>, p: models::PreferencesModel)
    requires
        is_toggle(action),
    ensures
        callback_outcome(action, p) is Some,
{
}

/// The buttons for the first two delivery modes are understood.
proof fn lemma_mode_row(p: models::PreferencesModel)
    ensures
        forall|j: int|
            0 <= j < mode_row(p).len() ==> understood(#[trigger] mode_row(p)[j], p),
{
    reveal_strlit("pref:");
    reveal_strlit("pref:mode:buttons");
    reveal_strlit("mode:");
    reveal_strlit("buttons");
    reveal_strlit("pref:mode:links10");
    reveal_strlit("links10");
    lemma_mode_action(DeliveryMode::Buttons, p);
    assert("pref:mode:buttons"@ =~= "pref:"@ + ("mode:"@ + "buttons"@));
    lemma_understood(mode_row(p)[0], "mode:"@ + "buttons"@, p);
    lemma_mode_action(DeliveryMode::Links10, p);
    assert("pref:mode:links10"@ =~= "pref:"@ + ("mode:"@ + "links10"@));
    lemma_understood(mode_row(p)[1], "mode:"@ + "links10"@, p);
}

/// The buttons for the delivery modes with pictures are understood.
proof fn lemma_image_mode_row(p: models::PreferencesModel)
    ensures
        forall|j: int|
            0 <= j < image_mode_row(p).len() ==> understood(#[trigger] image_mode_row(p)[j], p),
{
    reveal_strlit("pref:");
    reveal_strlit("pref:mode:images10");
    reveal_strlit("mode:");
    reveal_strlit("images10");
    reveal_strlit("pref:mode:images20");
    reveal_strlit("images20");
    lemma_mode_action(DeliveryMode::Images10, p);
    assert("pref:mode:images10"@ =~= "pref:"@ + ("mode:"@ + "images10"@));
    lemma_understood(image_mode_row(p)[0], "mode:"@ + "images10"@, p);
    lemma_mode_action(DeliveryMode::Images20, p);
    assert("pref:mode:images20"@ =~= "pref:"@ + ("mode:"@ + "images20"@));
    lemma_understood(image_mode_row(p)[1], "mode:"@ + "images20"@, p);
}

/// The buttons for the first two file families are understood.
proof fn lemma_type_row(p: models::PreferencesModel)
    ensures
        forall|j: int|
            0 <= j < type_row(p).len() ==> understood(#[trigger] type_row(p)[j], p),
{
    reveal_strlit("pref:");
    reveal_strlit("pref:type:all");
    reveal_strlit("type:");
    reveal_strlit("all");
    reveal_strlit("pref:type:images");
    reveal_strlit("images");
    lemma_type_action(FileType::All, p);
    assert("pref:type:all"@ =~= "pref:"@ + ("type:"@ + "all"@));
    lemma_understood(type_row(p)[0], "type:"@ + "all"@, p);
    lemma_type_action(FileType::Images, p);
    assert("pref:type:images"@ =~= "pref:"@ + ("type:"@ + "images"@));
    lemma_understood(type_row(p)[1], "type:"@ + "images"@, p);
}

/// The buttons for the other file families are understood.
proof fn lemma_media_type_row(p: models::PreferencesModel)
    ensures
        forall|j: int|
            0 <= j < media_type_row(p).len() ==> understood(#[trigger] media_type_row(p)[j], p),
{
    reveal_strlit("pref:");
    reveal_strlit("pref:type:audio");
    reveal_strlit("type:");
    reveal_strlit("audio");
    reveal_strlit("pref:type:video");
    reveal_strlit("video");
    lemma_type_action(FileType::Audio, p);
    assert("pref:type:audio"@ =~= "pref:"@ + ("type:"@ + "audio"@));
    lemma_understood(media_type_row(p)[0], "type:"@ + "audio"@, p);
    lemma_type_action(FileType::Video, p);
    assert("pref:type:video"@ =~= "pref:"@ + ("type:"@ + "video"@));
    lemma_understood(media_type_row(p)[1], "type:"@ + "video"@, p);
}

/// The buttons for what button labels show are understood.
proof fn lemma_label_row(p: models::PreferencesModel)
    ensures
        forall|j: int|
            0 <= j < label_row(p).len() ==> understood(#[trigger] label_row(p)[j], p),
{
    reveal_strlit("pref:");
    reveal_strlit("pref:toggle:category-counts");
    reveal_strlit("toggle:category-counts");
    reveal_strlit("pref:toggle:filesize");
    reveal_strlit("toggle:filesize");
    lemma_toggle_action("toggle:category-counts"@, p);
    assert("pref:toggle:category-counts"@ =~= "pref:"@ + "toggle:category-counts"@);
    lemma_understood(label_row(p)[0], "toggle:category-counts"@, p);
    lemma_toggle_action("toggle:filesize"@, p);
    assert("pref:toggle:filesize"@ =~= "pref:"@ + "toggle:filesize"@);
    lemma_understood(label_row(p)[1], "toggle:filesize"@, p);
}

/// The buttons for how previews look are understood.
proof fn lemma_preview_row(p: models::PreferencesModel)
    ensures
        forall|j: int|
            0 <= j < preview_row(p).len() ==> understood(#[trigger] preview_row(p)[j], p),
{
    reveal_strlit("pref:");
    reveal_strlit("pref:toggle:preview-metadata");
    reveal_strlit("toggle:preview-metadata");
    reveal_strlit("pref:toggle:rich-previews");
    reveal_strlit("toggle:rich-previews");
    lemma_toggle_action("toggle:preview-metadata"@, p);
    assert("pref:toggle:preview-metadata"@ =~= "pref:"@ + "toggle:preview-metadata"@);
    lemma_understood(preview_row(p)[0], "toggle:preview-metadata"@, p);
    lemma_toggle_action("toggle:rich-previews"@, p);
    assert("pref:toggle:rich-previews"@ =~= "pref:"@ + "toggle:rich-previews"@);
    lemma_understood(preview_row(p)[1], "toggle:rich-previews"@, p);
}

/// The button for how the files of a category are shown is understood.
proof fn lemma_category_file_row(p: models::PreferencesModel)
    ensures
        forall|j: int|
            0 <= j < category_file_row(p).len() ==> understood(#[trigger] category_file_row(p)[j], p),
{
    reveal_strlit("pref:");
    reveal_strlit("pref:toggle:category-file-buttons");
    reveal_strlit("toggle:category-file-buttons");
    lemma_toggle_action("toggle:category-file-buttons"@, p);
    assert("pref:toggle:category-file-buttons"@ =~= "pref:"@ + "toggle:category-file-buttons"@);
    lemma_understood(category_file_row(p)[0], "toggle:category-file-buttons"@, p);
}

/// The buttons for hashes and pages are understood.
proof fn lemma_detail_row(p: models::PreferencesModel)
    ensures
        forall|j: int|
            0 <= j < detail_row(p).len() ==> understood(#[trigger] detail_row(p)[j], p),
{
    reveal_strlit("pref:");
    reveal_strlit("pref:toggle:sha1");
    reveal_strlit("toggle:sha1");
    reveal_strlit("pref:toggle:pagination");
    reveal_strlit("toggle:pagination");
    lemma_toggle_action("toggle:sha1"@, p);
    assert("pref:toggle:sha1"@ =~= "pref:"@ + "toggle:sha1"@);
    lemma_understood(detail_row(p)[0], "toggle:sha1"@, p);
    lemma_toggle_action("toggle:pagination"@, p);
    assert("pref:toggle:pagination"@ =~= "pref:"@ + "toggle:pagination"@);
    lemma_understood(detail_row(p)[1], "toggle:pagination"@, p);
}

/// The buttons for PDF files are understood.
proof fn lemma_pdf_row(p: models::PreferencesModel)
    ensures
        forall|j: int|
            0 <= j < pdf_row(p).len() ==> understood(#[trigger] pdf_row(p)[j], p),
{
    reveal_strlit("pref:");
    reveal_strlit("pref:pdf:original");
    reveal_strlit("pdf:");
    reveal_strlit("original");
    reveal_strlit("pref:pdf:rendered");
    reveal_strlit("rendered");
    lemma_page_mode_actions(DocumentPageMode::Original, p);
    assert("pref:pdf:original"@ =~= "pref:"@ + ("pdf:"@ + "original"@));
    lemma_understood(pdf_row(p)[0], "pdf:"@ + "original"@, p);
    lemma_page_mode_actions(DocumentPageMode::RenderedPages, p);
    assert("pref:pdf:rendered"@ =~= "pref:"@ + ("pdf:"@ + "rendered"@));
    lemma_understood(pdf_row(p)[1], "pdf:"@ + "rendered"@, p);
}

/// The buttons for DjVu files are understood.
proof fn lemma_djvu_row(p: models::PreferencesModel)
    ensures
        forall|j: int|
            0 <= j < djvu_row(p).len() ==> understood(#[trigger] djvu_row(p)[j], p),
{
    reveal_strlit("pref:");
    reveal_strlit("pref:djvu:original");
    reveal_strlit("djvu:");
    reveal_strlit("original");
    reveal_strlit("pref:djvu:rendered");
    reveal_strlit("rendered");
    lemma_page_mode_actions(DocumentPageMode::Original, p);
    assert("pref:djvu:original"@ =~= "pref:"@ + ("djvu:"@ + "original"@));
    lemma_understood(djvu_row(p)[0], "djvu:"@ + "original"@, p);
    lemma_page_mode_actions(DocumentPageMode::RenderedPages, p);
    assert("pref:djvu:rendered"@ =~= "pref:"@ + ("djvu:"@ + "rendered"@));
    lemma_understood(djvu_row(p)[1], "djvu:"@ + "rendered"@, p);
}

/// The button that shows the extension is understood.
proof fn lemma_extension_choice_row(p: models::PreferencesModel)
    ensures
        forall|j: int|
            0 <= j < extension_choice_row(p).len() ==> understood(#[trigger] extension_choice_row(p)[j], p),
{
    reveal_strlit("pref:");
    reveal_strlit("pref:ext");
    reveal_strlit("ext");
    lemma_plain_actions(p);
    assert("pref:ext"@ =~= "pref:"@ + "ext"@);
    lemma_understood(extension_choice_row(p)[0], "ext"@, p);
}

/// The buttons for the inline result counts are understood.
proof fn lemma_inline_count_row(p: models::PreferencesModel)
    ensures
        forall|j: int|
            0 <= j < inline_count_row(p.inline_result_count).len() ==> understood(
                #[trigger] inline_count_row(p.inline_result_count)[j],
                p,
            ),
{
    let row = inline_count_row(p.inline_result_count);
    reveal_strlit("pref:");
    reveal_strlit("inline:");
    reveal_strlit("pref:inline:");
    assert forall|j: int| 0 <= j < row.len() implies understood(#[trigger] row[j], p) by {
        let n = INLINE_RESULT_COUNT_OPTIONS@[j];
        let w = numbers::numeral(n as nat);
        lemma_inline_action(n, p);
        assert("pref:inline:"@ + w =~= "pref:"@ + ("inline:"@ + w));
        lemma_understood(row[j], "inline:"@ + w, p);
    }
}

/// The button of an extension group is understood.
proof fn lemma_group_button(p: models::PreferencesModel, g: ExtensionGroup)
    ensures
        understood(group_button(p, g), p),
{
    reveal_strlit("pref:");
    reveal_strlit("ext:group:");
    reveal_strlit("pref:ext:group:");
    lemma_group_action(g, p);
    assert("pref:ext:group:"@ + g.word() =~= "pref:"@ + ("ext:group:"@ + g.word()));
    lemma_understood(group_button(p, g), "ext:group:"@ + g.word(), p);
}

/// The buttons that go to a menu, and those that clear the extension, are understood.
proof fn lemma_plain_buttons(b: telegram::ButtonView, p: models::PreferencesModel)
    requires
        b.callback_data == Some("pref:main"@) || b.callback_data == Some("pref:ext"@)
            || b.callback_data == Some("pref:ext:off"@),
    ensures
        understood(b, p),
{
    reveal_strlit("pref:");
    reveal_strlit("pref:main");
    reveal_strlit("pref:ext");
    reveal_strlit("pref:ext:off");
    reveal_strlit("main");
    reveal_strlit("ext");
    reveal_strlit("ext:off");
    assert("pref:main"@ =~= "pref:"@ + "main"@);
    assert("pref:ext"@ =~= "pref:"@ + "ext"@);
    assert("pref:ext:off"@ =~= "pref:"@ + "ext:off"@);
    lemma_plain_actions(p);
    if b.callback_data == Some("pref:main"@) {
        lemma_understood(b, "main"@, p);
    } else if b.callback_data == Some("pref:ext"@) {
        lemma_understood(b, "ext"@, p);
    } else {
        lemma_understood(b, "ext:off"@, p);
    }
}

/// The rows of extensions from `k` on are understood.
proof fn lemma_extension_rows(p: models::PreferencesModel, g: ExtensionGroup, k: int, i: int, j: int)
    requires
        k >= 0,
        0 <= i < extension_rows(p, g.members(), k).len(),
        0 <= j < extension_rows(p, g.members(), k)[i].len(),
    ensures
        understood(extension_rows(p, g.members(), k)[i][j], p),
    decreases g.members().len() - k,
{
    let exts = g.members();
    let rows = extension_rows(p, exts, k);
    if i == 0 {
        let n = k + j;
        assert(rows[0][j] == extension_button(p, exts[n]@));
        reveal_strlit("pref:");
        reveal_strlit("ext:set:");
        reveal_strlit("pref:ext:set:");
        lemma_extension_action(g, n, p);
        assert("pref:ext:set:"@ + exts[n]@ =~= "pref:"@ + ("ext:set:"@ + exts[n]@));
        lemma_understood(rows[0][j], "ext:set:"@ + exts[n]@, p);
    } else {
        assert(rows[i] == extension_rows(p, exts, k + 3)[i - 1]);
        lemma_extension_rows(p, g, k + 3, i - 1, j);
    }
}

/// The buttons of the main menu are understood.
proof fn lemma_main_menu(p: models::PreferencesModel, i: int, j: int)
    requires
        0 <= i < main_menu(p).len(),
        0 <= j < main_menu(p)[i].len(),
    ensures
        understood(main_menu(p)[i][j], p),
{
    lemma_mode_row(p);
    lemma_image_mode_row(p);
    lemma_type_row(p);
    lemma_media_type_row(p);
    lemma_label_row(p);
    lemma_preview_row(p);
    lemma_category_file_row(p);
    lemma_detail_row(p);
    lemma_inline_count_row(p);
    lemma_pdf_row(p);
    lemma_djvu_row(p);
    lemma_extension_choice_row(p);
}

/// Whatever the preferences are and whichever menu is shown, the press of each of its buttons is
/// understood.
pub proof fn law_menu_buttons_are_understood(
    p: models::PreferencesModel,
    view: PreferencesView,
    i: int,
    j: int,
)
    requires
        0 <= i < menu_of(p, view).len(),
        0 <= j < menu_of(p, view)[i].len(),
    ensures
        understood(menu_of(p, view)[i][j], p),
{
    let b = menu_of(p, view)[i][j];
    match view {
        PreferencesView::Main => lemma_main_menu(p, i, j),
        PreferencesView::ExtensionMenu => {
            lemma_group_button(p, ExtensionGroup::Images);
            lemma_group_button(p, ExtensionGroup::Audio);
            lemma_group_button(p, ExtensionGroup::Video);
            lemma_group_button(p, ExtensionGroup::Documents);
            lemma_group_button(p, ExtensionGroup::Other);
            if i == 0 || i == 4 {
                lemma_plain_buttons(b, p);
            }
        },
        PreferencesView::ExtensionGroup(g) => {
            let rows = extension_rows(p, g.members(), 0);
            if i < rows.len() {
                lemma_extension_rows(p, g, 0, i, j);
            } else {
                lemma_plain_buttons(b, p);
            }
        },
    }
}

// Texts.

/// The word for a truth value.
pub open spec fn yes_or_no(b: bool) -> Seq<char> {
    if b {
        "yes"@
    } else {
        "no"@
    }
}

/// Returns "yes" or "no" for booleans.
pub fn yes_no(value: bool) -> (r: &'static str)
    ensures
        r@ == yes_or_no(value),
{
    if value {
        "yes"
    } else {
        "no"
    }
}

/// The commands that edit preferences.
pub const PREFERENCE_COMMANDS: &'static str =
    "\n\nUse the buttons below, or commands:\n/settings mode buttons|links10|images10|images20\n/settings type all|images|audio|video\n/settings ext jpg|webp|flac|pdf|off\n/settings category-counts on|off\n/settings preview-metadata on|off\n/settings rich-previews on|off\n/settings category-file-buttons on|off\n/settings pagination on|off\n/settings inline 10|20|50\n/settings sha1 on|off\n/settings filesize on|off\n/settings favorite add Category name\n/settings blacklist-category add Category name\n/settings blacklist-user add Username\n\nAliases: /prefs, /preferences";

/// The text that shows preferences.
pub open spec fn preferences_text(p: models::PreferencesModel, stateless: bool) -> Seq<char> {
    "Preferences ("@ + (if stateless {
        "stateless mode, not saved"@
    } else {
        "saved in DynamoDB when configured"@
    }) + ")\n\nCategory counts: "@ + yes_or_no(p.show_category_counts) + "\nMode: "@
        + p.delivery_mode.pref_word() + "\nFile type: "@ + p.file_type.pref_word()
        + "\nExtension: "@ + (match p.extension {
        Some(e) => e,
        None => "none"@,
    }) + "\nPreview metadata: "@ + yes_or_no(p.show_preview_metadata) + "\nRich previews: "@
        + yes_or_no(p.rich_image_previews) + "\nCategory file buttons: "@ + yes_or_no(
        p.category_file_buttons,
    ) + "\nPagination: "@ + yes_or_no(p.pagination_enabled) + "\nInline results: "@
        + numbers::numeral(models::inline_count(p.inline_result_count) as nat) + "\nSHA-1: "@
        + yes_or_no(p.show_sha1) + "\nFile size in buttons: "@ + yes_or_no(p.show_file_size)
        + "\nFavorites: "@ + text::joined(p.favorite_categories, ", "@) + "\nCategory blacklist: "@
        + text::joined(p.blacklist_categories, ", "@) + "\nUploader blacklist: "@ + text::joined(
        p.blacklist_uploaders,
        ", "@,
    ) + PREFERENCE_COMMANDS@
}

/// Formats the current preferences for Telegram.
pub fn format_preferences(p: &Preferences, config: &Config) -> (r: String)
    ensures
        r@ == preferences_text(p@, config.stateless_mode),
{
    let storage = if config.stateless_mode {
        "stateless mode, not saved"
    } else {
        "saved in DynamoDB when configured"
    };
    let extension = match &p.extension {
        Some(e) => e.clone(),
        None => "none".to_owned(),
    };
    "Preferences (".to_owned().concat(storage).concat(")\n\nCategory counts: ").concat(
        yes_no(p.show_category_counts),
    ).concat("\nMode: ").concat(p.delivery_mode.as_pref_value()).concat("\nFile type: ").concat(
        p.file_type.as_pref_value(),
    ).concat("\nExtension: ").concat(extension.as_str()).concat("\nPreview metadata: ").concat(
        yes_no(p.show_preview_metadata),
    ).concat("\nRich previews: ").concat(yes_no(p.rich_image_previews)).concat(
        "\nCategory file buttons: ",
    ).concat(yes_no(p.category_file_buttons)).concat("\nPagination: ").concat(
        yes_no(p.pagination_enabled),
    ).concat("\nInline results: ").concat(
        numbers::decimal(p.normalized_inline_result_count() as u64).as_str(),
    ).concat("\nSHA-1: ").concat(yes_no(p.show_sha1)).concat("\nFile size in buttons: ").concat(
        yes_no(p.show_file_size),
    ).concat("\nFavorites: ").concat(text::join(&p.favorite_categories, ", ").as_str()).concat(
        "\nCategory blacklist: ",
    ).concat(text::join(&p.blacklist_categories, ", ").as_str()).concat(
        "\nUploader blacklist: ",
    ).concat(text::join(&p.blacklist_uploaders, ", ").as_str()).concat(PREFERENCE_COMMANDS)
}

/// Builds the message that shows preferences.
pub fn preferences_reply(p: &Preferences, config: &Config, view: PreferencesView) -> (r: Reply)
    ensures
        r@.text == preferences_text(p@, config.stateless_mode),
        r@.rows == Some(menu_of(p@, view)),
{
    Reply {
        text: format_preferences(p, config),
        rows: Some(preferences_keyboard(p, view).inline_keyboard),
    }
}

/// The start of the help text.
pub const HELP_START: &'static str =
    "<b>Wikimedia Commons bot</b>\n\nUnofficial Wikimedia Commons search bot. Source: <a href=\"";

/// The rest of the help text.
pub const HELP_BODY: &'static str =
    "\nLicense: MIT\n\nSearch examples:\n<pre>Minsk\n-img Minsk\n-links Minsk\nimage Minsk\nbild Berlin\naudio:bird\nflac Minsk c birds\nUser:Vitaly_Zdanevich date:2025 Minsk\nuser:Vitaly_Zdanevich d:7days audio:something\ns:&gt;10MB s:&lt;20MB Minsk\nCategory Minsk\nKategorie Berlin\nКатегория Минск\nКатэгорыя Мінск</pre>\n\nAliases: category/c, Kategorie/kat/k, категория/катэгорыя/к/с; user/u/Benutzer; image/images/img/i, Bild/Bilder/Foto/Fotos, выява/ваява/в; audio/sound/music, Ton/Klang/Musik, аудио/музыка/звук/аудыё; date/d/Datum; size/s/Größe/Groesse/g. Use -img for Telegram image previews with metadata captions, -links for 10 compact links, and /settings to open preferences. Preview metadata and button pagination are enabled by default and can be disabled in /settings. Rich previews can be enabled in /settings to send one Telegram rich message with photos and text together.\n\nCategory buttons show category info first, then up to 20 direct image previews with captions, then subcategories. Filename buttons for category files can be enabled in /settings.\n\nSend your current Telegram location to get up to 20 closest Wikimedia Commons category buttons. Inline mode can use Telegram's shared location to show nearby geotagged images. Without location, or with structured filters like user:, category, date, size, or extension, it searches by your typed query. Inline result count can be set in /settings to 10, 20, or 50 for slower networks.\n\nClick file buttons to receive the file with metadata, license, uploader, date, source link, geolocation when available, and upload version count. Telegram bot uploads are limited to 50 MB, so larger files are filtered out. Files larger than 20 MB use red buttons; audio uses blue buttons.\n\nUpload your own free photos, audio, video, and other files to Wikimedia Commons: <a href=\"https://commons.wikimedia.org/wiki/Special:UploadWizard\">Upload Wizard</a>. Many upload tools are listed at <a href=\"https://commons.wikimedia.org/wiki/Commons:Upload_tools\">Commons upload tools</a>. Storage is unlimited, and all files are public.\n\nSupport: @vitaly_zdanevich\n\nAWS free-tier docs: <a href=\"https://aws.amazon.com/lambda/pricing/\">Lambda</a>, <a href=\"https://aws.amazon.com/dynamodb/pricing/\">DynamoDB</a>.";

/// The help text.
pub open spec fn help(github_url: Seq<char>, favorites: Seq<Seq<char>>) -> Seq<char> {
    HELP_START@ + github_url + "\">"@ + github_url + "</a>"@ + HELP_BODY@ + (if favorites.len()
        == 0 {
        ""@
    } else {
        "\nFavorite categories: "@ + text::joined(favorites, ", "@)
    })
}

/// Returns the `/help` text.
pub fn help_text(config: &Config, preferences: &Preferences) -> (r: String)
    ensures
        r@ == help(config.github_url@, preferences@.favorite_categories),
{
    let url = config.github_url.as_str();
    let favorites = if preferences.favorite_categories.len() == 0 {
        "".to_owned()
    } else {
        "\nFavorite categories: ".to_owned().concat(
            text::join(&preferences.favorite_categories, ", ").as_str(),
        )
    };
    HELP_START.to_owned().concat(url).concat("\">").concat(url).concat("</a>").concat(
        HELP_BODY,
    ).concat(favorites.as_str())
}

} // verus!
