//! Laws on the preferences: what commands and buttons change, and what the menus show.

use vstd::prelude::*;
use crate::laws::inputs;
use crate::laws::searches;
use crate::laws::texts;
use crate::models;
use crate::models::{DeliveryMode, DocumentPageMode, FileType};
use crate::numbers;
use crate::ordering;
use crate::settings;
use crate::settings::{ExtensionGroup, PreferencesView};
use crate::telegram;
use crate::text;

verus! {

// Commands.

/// The names of the preferences are told apart by their letters.
proof fn lemma_names()
    ensures
        "category-counts"@.len() == 15 && "category-counts"@[0] == 'c' && "category-counts"@[1] == 'a',
        "sha1"@.len() == 4 && "sha1"@[0] == 's' && "sha1"@[1] == 'h',
        "filesize"@.len() == 8 && "filesize"@[0] == 'f' && "filesize"@[1] == 'i',
        "preview-metadata"@.len() == 16 && "preview-metadata"@[0] == 'p' && "preview-metadata"@[1] == 'r',
        "metadata"@.len() == 8 && "metadata"@[0] == 'm' && "metadata"@[1] == 'e',
        "rich-previews"@.len() == 13 && "rich-previews"@[0] == 'r' && "rich-previews"@[1] == 'i',
        "rich"@.len() == 4 && "rich"@[0] == 'r' && "rich"@[1] == 'i',
        "pagination"@.len() == 10 && "pagination"@[0] == 'p' && "pagination"@[1] == 'a',
        "category-file-buttons"@.len() == 21 && "category-file-buttons"@[0] == 'c' && "category-file-buttons"@[1] == 'a',
        "category-files"@.len() == 14 && "category-files"@[0] == 'c' && "category-files"@[1] == 'a',
        "inline"@.len() == 6 && "inline"@[0] == 'i' && "inline"@[1] == 'n',
        "inline-count"@.len() == 12 && "inline-count"@[0] == 'i' && "inline-count"@[1] == 'n',
        "mode"@.len() == 4 && "mode"@[0] == 'm' && "mode"@[1] == 'o',
        "type"@.len() == 4 && "type"@[0] == 't' && "type"@[1] == 'y',
        "ext"@.len() == 3 && "ext"@[0] == 'e' && "ext"@[1] == 'x',
        "favorite"@.len() == 8 && "favorite"@[0] == 'f' && "favorite"@[1] == 'a',
        "blacklist-category"@.len() == 18 && "blacklist-category"@[0] == 'b' && "blacklist-category"@[1] == 'l',
        "blacklist-user"@.len() == 14 && "blacklist-user"@[0] == 'b' && "blacklist-user"@[1] == 'l',
        "on"@.len() == 2 && "off"@.len() == 3 && "buttons"@.len() == 7 && "images"@.len() == 6,
        "add"@.len() == 3 && "add"@[0] == 'a' && "remove"@.len() == 6 && "off"@[0] == 'o',
{
    reveal_strlit("category-counts");
    reveal_strlit("sha1");
    reveal_strlit("filesize");
    reveal_strlit("preview-metadata");
    reveal_strlit("metadata");
    reveal_strlit("rich-previews");
    reveal_strlit("rich");
    reveal_strlit("pagination");
    reveal_strlit("category-file-buttons");
    reveal_strlit("category-files");
    reveal_strlit("inline");
    reveal_strlit("inline-count");
    reveal_strlit("mode");
    reveal_strlit("type");
    reveal_strlit("ext");
    reveal_strlit("favorite");
    reveal_strlit("blacklist-category");
    reveal_strlit("blacklist-user");
    reveal_strlit("on");
    reveal_strlit("off");
    reveal_strlit("buttons");
    reveal_strlit("images");
    reveal_strlit("add");
    reveal_strlit("remove");
}

/// A command that names a switch and says on or off sets that preference so, and no other. In
/// either spelling of the name, and in any case of its letters.
pub proof fn law_switch_commands(
    tokens: Seq<Seq<char>>,
    p: models::PreferencesModel,
    on: bool,
)
    requires
        tokens.len() >= 3,
        text::lowered(tokens[2]) == (if on {
            "on"@
        } else {
            "off"@
        }),
    ensures
        ({
            let name = text::lowered(tokens[1]);
            let after = settings::edited_by(tokens, p);
            &&& name == "category-counts"@ ==> after == (models::PreferencesModel {
                show_category_counts: on,
                ..p
            })
            &&& name == "sha1"@ ==> after == (models::PreferencesModel {
                show_sha1: on,
                ..p
            })
            &&& name == "filesize"@ ==> after == (models::PreferencesModel {
                show_file_size: on,
                ..p
            })
            &&& name == "preview-metadata"@ || name == "metadata"@ ==> after == (models::PreferencesModel {
                show_preview_metadata: on,
                ..p
            })
            &&& name == "rich-previews"@ || name == "rich"@ ==> after == (models::PreferencesModel {
                rich_image_previews: on,
                ..p
            })
            &&& name == "pagination"@ ==> after == (models::PreferencesModel {
                pagination_enabled: on,
                ..p
            })
            &&& name == "category-file-buttons"@ || name == "category-files"@ ==> after == (models::PreferencesModel {
                category_file_buttons: on,
                ..p
            })
        }),
{
    lemma_names();
}

/// A command for the delivery mode, the family or the number of inline results sets just that, to
/// what it says.
pub proof fn law_choice_commands(tokens: Seq<Seq<char>>, p: models::PreferencesModel)
    requires
        tokens.len() >= 3,
    ensures
        ({
            let name = text::lowered(tokens[1]);
            let word = text::lowered(tokens[2]);
            let after = settings::edited_by(tokens, p);
            &&& name == "mode"@ && (word == "buttons"@) ==> after == (models::PreferencesModel {
                delivery_mode: DeliveryMode::Buttons,
                ..p
            })
            &&& name == "mode"@ && (word == "links"@ || word == "links10"@) ==> after == (models::PreferencesModel {
                delivery_mode: DeliveryMode::Links10,
                ..p
            })
            &&& name == "mode"@ && (word == "img"@ || word == "img10"@ || word == "images10"@) ==> after == (models::PreferencesModel {
                delivery_mode: DeliveryMode::Images10,
                ..p
            })
            &&& name == "mode"@ && (word == "images20"@) ==> after == (models::PreferencesModel {
                delivery_mode: DeliveryMode::Images20,
                ..p
            })
            &&& name == "type"@ && (word == "all"@) ==> after == (models::PreferencesModel {
                file_type: FileType::All,
                ..p
            })
            &&& name == "type"@ && (word == "image"@ || word == "images"@) ==> after == (models::PreferencesModel {
                file_type: FileType::Images,
                ..p
            })
            &&& name == "type"@ && (word == "audio"@ || word == "sound"@ || word == "music"@) ==> after == (models::PreferencesModel {
                file_type: FileType::Audio,
                ..p
            })
            &&& name == "type"@ && (word == "video"@ || word == "videos"@) ==> after == (models::PreferencesModel {
                file_type: FileType::Video,
                ..p
            })
            &&& (name == "inline"@ || name == "inline-count"@) && word == "10"@ ==> after
                == (models::PreferencesModel { inline_result_count: 10, ..p })
            &&& (name == "inline"@ || name == "inline-count"@) && word == "20"@ ==> after
                == (models::PreferencesModel { inline_result_count: 20, ..p })
            &&& (name == "inline"@ || name == "inline-count"@) && word == "50"@ ==> after
                == (models::PreferencesModel { inline_result_count: 50, ..p })
            &&& name == "ext"@ && word == "off"@ ==> after == (models::PreferencesModel {
                extension: None,
                ..p
            })
        }),
{
    lemma_names();
    lemma_choice_words();
    let word = text::lowered(tokens[2]);
    if lower_word(word) {
        lemma_lower_word(word);
    }
    lemma_counts();
}

/// True of the words for modes and families.
spec fn lower_word(w: Seq<char>) -> bool {
    ||| w == "buttons"@
    ||| w == "links"@
    ||| w == "links10"@
    ||| w == "img"@
    ||| w == "img10"@
    ||| w == "images10"@
    ||| w == "images20"@
    ||| w == "all"@
    ||| w == "image"@
    ||| w == "images"@
    ||| w == "audio"@
    ||| w == "sound"@
    ||| w == "music"@
    ||| w == "video"@
    ||| w == "videos"@
}

proof fn lemma_choice_words()
    ensures
        "buttons"@.len() == 7 && "buttons"@[0] == 'b' && "buttons"@[1] == 'u' && "buttons"@[2] == 't' && "buttons"@[3] == 't' && "buttons"@[4] == 'o' && "buttons"@[5] == 'n' && "buttons"@[6] == 's',
        "links"@.len() == 5 && "links"@[0] == 'l' && "links"@[1] == 'i' && "links"@[2] == 'n' && "links"@[3] == 'k' && "links"@[4] == 's',
        "links10"@.len() == 7 && "links10"@[0] == 'l' && "links10"@[1] == 'i' && "links10"@[2] == 'n' && "links10"@[3] == 'k' && "links10"@[4] == 's' && "links10"@[5] == '1' && "links10"@[6] == '0',
        "img"@.len() == 3 && "img"@[0] == 'i' && "img"@[1] == 'm' && "img"@[2] == 'g',
        "img10"@.len() == 5 && "img10"@[0] == 'i' && "img10"@[1] == 'm' && "img10"@[2] == 'g' && "img10"@[3] == '1' && "img10"@[4] == '0',
        "images10"@.len() == 8 && "images10"@[0] == 'i' && "images10"@[1] == 'm' && "images10"@[2] == 'a' && "images10"@[3] == 'g' && "images10"@[4] == 'e' && "images10"@[5] == 's' && "images10"@[6] == '1' && "images10"@[7] == '0',
        "images20"@.len() == 8 && "images20"@[0] == 'i' && "images20"@[1] == 'm' && "images20"@[2] == 'a' && "images20"@[3] == 'g' && "images20"@[4] == 'e' && "images20"@[5] == 's' && "images20"@[6] == '2' && "images20"@[7] == '0',
        "all"@.len() == 3 && "all"@[0] == 'a' && "all"@[1] == 'l' && "all"@[2] == 'l',
        "image"@.len() == 5 && "image"@[0] == 'i' && "image"@[1] == 'm' && "image"@[2] == 'a' && "image"@[3] == 'g' && "image"@[4] == 'e',
        "images"@.len() == 6 && "images"@[0] == 'i' && "images"@[1] == 'm' && "images"@[2] == 'a' && "images"@[3] == 'g' && "images"@[4] == 'e' && "images"@[5] == 's',
        "audio"@.len() == 5 && "audio"@[0] == 'a' && "audio"@[1] == 'u' && "audio"@[2] == 'd' && "audio"@[3] == 'i' && "audio"@[4] == 'o',
        "sound"@.len() == 5 && "sound"@[0] == 's' && "sound"@[1] == 'o' && "sound"@[2] == 'u' && "sound"@[3] == 'n' && "sound"@[4] == 'd',
        "music"@.len() == 5 && "music"@[0] == 'm' && "music"@[1] == 'u' && "music"@[2] == 's' && "music"@[3] == 'i' && "music"@[4] == 'c',
        "video"@.len() == 5 && "video"@[0] == 'v' && "video"@[1] == 'i' && "video"@[2] == 'd' && "video"@[3] == 'e' && "video"@[4] == 'o',
        "videos"@.len() == 6 && "videos"@[0] == 'v' && "videos"@[1] == 'i' && "videos"@[2] == 'd' && "videos"@[3] == 'e' && "videos"@[4] == 'o' && "videos"@[5] == 's',
{
    reveal_strlit("buttons");
    reveal_strlit("links");
    reveal_strlit("links10");
    reveal_strlit("img");
    reveal_strlit("img10");
    reveal_strlit("images10");
    reveal_strlit("images20");
    reveal_strlit("all");
    reveal_strlit("image");
    reveal_strlit("images");
    reveal_strlit("audio");
    reveal_strlit("sound");
    reveal_strlit("music");
    reveal_strlit("video");
    reveal_strlit("videos");
}

proof fn lemma_lower_word(w: Seq<char>)
    requires
        lower_word(w),
    ensures
        models::word(w) == w,
{
    lemma_choice_words();
    assert(w.len() > 0);
    assert forall|i: int| 0 <= i < w.len() implies 'a' <= #[trigger] w[i] <= 'z' || '0' <= w[i]
        <= '9' by {}
    texts::law_trimmed(seq![], w, seq![]);
    assert(seq![] + w + seq![] =~= w);
    assert(text::lowered(w) =~= w);
}

proof fn lemma_counts()
    ensures
        numbers::unsigned_value("10"@, usize::MAX as nat) == Some(10nat),
        numbers::unsigned_value("20"@, usize::MAX as nat) == Some(20nat),
        numbers::unsigned_value("50"@, usize::MAX as nat) == Some(50nat),
        models::inline_count(10) == 10 && models::inline_count(20) == 20 && models::inline_count(50)
            == 50,
{
    reveal_strlit("10");
    reveal_strlit("20");
    reveal_strlit("50");
    reveal_with_fuel(numbers::number_of, 3);
    assert("10"@.drop_last() =~= seq!['1']);
    assert("20"@.drop_last() =~= seq!['2']);
    assert("50"@.drop_last() =~= seq!['5']);
    assert(seq!['1'].drop_last() =~= seq![]);
    assert(seq!['2'].drop_last() =~= seq![]);
    assert(seq!['5'].drop_last() =~= seq![]);
    inputs::law_number_of_digits(seq![], '1');
    inputs::law_number_of_digits(seq![], '2');
    inputs::law_number_of_digits(seq![], '5');
    inputs::law_number_of_digits(seq!['1'], '0');
    inputs::law_number_of_digits(seq!['2'], '0');
    inputs::law_number_of_digits(seq!['5'], '0');
    assert(seq!['1'].push('0') =~= "10"@);
    assert(seq!['2'].push('0') =~= "20"@);
    assert(seq!['5'].push('0') =~= "50"@);
    assert(Seq::<char>::empty().push('1') =~= seq!['1']);
    assert(Seq::<char>::empty().push('2') =~= seq!['2']);
    assert(Seq::<char>::empty().push('5') =~= seq!['5']);
    let o = models::INLINE_RESULT_COUNT_OPTIONS@;
    assert(o[0] == 10 && o[1] == 20 && o[2] == 50);
}

/// A number of inline results that is not offered counts as fifty.
pub proof fn law_odd_counts(n: usize)
    ensures
        n == 10 || n == 20 || n == 50 ==> models::inline_count(n) == n,
        n != 10 && n != 20 && n != 50 ==> models::inline_count(n) == 50,
{
    let o = models::INLINE_RESULT_COUNT_OPTIONS@;
    assert(o[0] == 10 && o[1] == 20 && o[2] == 50);
}

/// A command for a list adds its value at the end, or takes every copy of it out; the value is the
/// rest of the command. Each list has its own name, and the others stay.
pub proof fn law_list_commands(tokens: Seq<Seq<char>>, p: models::PreferencesModel, x: Seq<char>)
    requires
        tokens.len() >= 4,
    ensures
        ({
            let name = text::lowered(tokens[1]);
            let verb = text::lowered(tokens[2]);
            let value = text::joined(tokens.skip(3), " "@);
            let after = settings::edited_by(tokens, p);
            &&& name == "favorite"@ && verb == "add"@ ==> after == (models::PreferencesModel {
                favorite_categories: p.favorite_categories.push(value),
                ..p
            })
            &&& name == "blacklist-category"@ && verb == "add"@ ==> after
                == (models::PreferencesModel {
                blacklist_categories: p.blacklist_categories.push(value),
                ..p
            })
            &&& name == "blacklist-user"@ && verb == "add"@ ==> after == (models::PreferencesModel {
                blacklist_uploaders: p.blacklist_uploaders.push(value),
                ..p
            })
            &&& name == "favorite"@ && verb == "remove"@ ==> after == (models::PreferencesModel {
                favorite_categories: after.favorite_categories,
                ..p
            }) && (after.favorite_categories.contains(x) <==> p.favorite_categories.contains(x) && x
                != value)
            &&& name == "blacklist-category"@ && verb == "remove"@ ==> after
                == (models::PreferencesModel {
                blacklist_categories: after.blacklist_categories,
                ..p
            }) && (after.blacklist_categories.contains(x) <==> p.blacklist_categories.contains(x)
                && x != value)
            &&& name == "blacklist-user"@ && verb == "remove"@ ==> after
                == (models::PreferencesModel {
                blacklist_uploaders: after.blacklist_uploaders,
                ..p
            }) && (after.blacklist_uploaders.contains(x) <==> p.blacklist_uploaders.contains(x) && x
                != value)
        }),
{
    lemma_names();
    let value = text::joined(tokens.skip(3), " "@);
    lemma_removed(p.favorite_categories, value, x);
    lemma_removed(p.blacklist_categories, value, x);
    lemma_removed(p.blacklist_uploaders, value, x);
}

proof fn lemma_removed(list: Seq<Seq<char>>, value: Seq<char>, x: Seq<char>)
    ensures
        ordering::kept(list, settings::other_than(value)).contains(x) <==> list.contains(x) && x
            != value,
{
    searches::lemma_kept_members(list, settings::other_than(value), x);
}

/// A message edits the preferences exactly where it begins with one of the commands and a blank.
pub proof fn law_edit_commands(rest: Seq<char>)
    ensures
        settings::edits_preferences("/settings "@ + rest),
        settings::edits_preferences("/prefs "@ + rest),
        settings::edits_preferences("/preferences "@ + rest),
        rest.len() > 0 && rest[0] != '/' ==> !settings::edits_preferences(rest),
{
    reveal_strlit("/settings ");
    reveal_strlit("/prefs ");
    reveal_strlit("/preferences ");
    texts::law_begins_and_finishes(rest, "/settings "@, rest);
    texts::law_begins_and_finishes(rest, "/prefs "@, rest);
    texts::law_begins_and_finishes(rest, "/preferences "@, rest);
    if rest.len() > 0 && rest[0] != '/' {
        if text::begins(rest, "/settings "@) {
            assert(rest.take(10)[0] == '/');
        }
        if text::begins(rest, "/prefs "@) {
            assert(rest.take(7)[0] == '/');
        }
        if text::begins(rest, "/preferences "@) {
            assert(rest.take(13)[0] == '/');
        }
    }
}

// Buttons.

/// The buttons that lead to menus leave the preferences as they are; the one that clears the
/// extension changes just that.
pub proof fn law_menu_actions(p: models::PreferencesModel)
    ensures
        ({
            let main = settings::callback_outcome("main"@, p);
            let menu = settings::callback_outcome("ext"@, p);
            let clear = settings::callback_outcome("ext:off"@, p);
            &&& main is Some && (main->0).preferences == p && (main->0).view == PreferencesView::Main
            &&& menu is Some && (menu->0).preferences == p && (menu->0).view
                == PreferencesView::ExtensionMenu
            &&& clear is Some && (clear->0).preferences == (models::PreferencesModel {
                extension: None,
                ..p
            }) && (clear->0).changed == (p.extension is Some)
            &&& !(main->0).changed && !(menu->0).changed && (main->0).render && (menu->0).render
        }),
{
    reveal_strlit("main");
    reveal_strlit("ext");
    reveal_strlit("ext:off");
    assert("main"@.len() == 4 && "ext"@.len() == 3 && "ext:off"@.len() == 7);
}

/// Each switch turns its own preference round, and no other, and goes to the main menu.
pub proof fn law_switch_actions(p: models::PreferencesModel)
    ensures
        settings::callback_outcome("toggle:category-counts"@, p) == Some(
            (settings::CallbackModel {
                preferences: models::PreferencesModel { show_category_counts: !p.show_category_counts, ..p },
                view: PreferencesView::Main,
                changed: true,
                render: true,
            }),
        ),
        settings::callback_outcome("toggle:sha1"@, p) == Some(
            (settings::CallbackModel {
                preferences: models::PreferencesModel { show_sha1: !p.show_sha1, ..p },
                view: PreferencesView::Main,
                changed: true,
                render: true,
            }),
        ),
        settings::callback_outcome("toggle:filesize"@, p) == Some(
            (settings::CallbackModel {
                preferences: models::PreferencesModel { show_file_size: !p.show_file_size, ..p },
                view: PreferencesView::Main,
                changed: true,
                render: true,
            }),
        ),
        settings::callback_outcome("toggle:preview-metadata"@, p) == Some(
            (settings::CallbackModel {
                preferences: models::PreferencesModel { show_preview_metadata: !p.show_preview_metadata, ..p },
                view: PreferencesView::Main,
                changed: true,
                render: true,
            }),
        ),
        settings::callback_outcome("toggle:rich-previews"@, p) == Some(
            (settings::CallbackModel {
                preferences: models::PreferencesModel { rich_image_previews: !p.rich_image_previews, ..p },
                view: PreferencesView::Main,
                changed: true,
                render: true,
            }),
        ),
        settings::callback_outcome("toggle:category-file-buttons"@, p) == Some(
            (settings::CallbackModel {
                preferences: models::PreferencesModel { category_file_buttons: !p.category_file_buttons, ..p },
                view: PreferencesView::Main,
                changed: true,
                render: true,
            }),
        ),
        settings::callback_outcome("toggle:pagination"@, p) == Some(
            (settings::CallbackModel {
                preferences: models::PreferencesModel { pagination_enabled: !p.pagination_enabled, ..p },
                view: PreferencesView::Main,
                changed: true,
                render: true,
            }),
        ),
{
    reveal_strlit("toggle:category-counts");
    reveal_strlit("toggle:sha1");
    reveal_strlit("toggle:filesize");
    reveal_strlit("toggle:preview-metadata");
    reveal_strlit("toggle:rich-previews");
    reveal_strlit("toggle:category-file-buttons");
    reveal_strlit("toggle:pagination");
    reveal_strlit("main");
    reveal_strlit("ext");
    reveal_strlit("ext:off");
    assert("main"@.len() == 4 && "ext"@.len() == 3 && "ext:off"@.len() == 7);
    assert("ext:off"@[0] == 'e');
    assert("toggle:category-counts"@.len() == 22 && "toggle:category-counts"@[7] == 'c');
    assert("toggle:sha1"@.len() == 11 && "toggle:sha1"@[7] == 's');
    assert("toggle:filesize"@.len() == 15 && "toggle:filesize"@[7] == 'f');
    assert("toggle:preview-metadata"@.len() == 23 && "toggle:preview-metadata"@[7] == 'p');
    assert("toggle:rich-previews"@.len() == 20 && "toggle:rich-previews"@[7] == 'r');
    assert("toggle:category-file-buttons"@.len() == 28 && "toggle:category-file-buttons"@[7] == 'c');
    assert("toggle:pagination"@.len() == 17 && "toggle:pagination"@[7] == 'p');
}

/// The button of a delivery mode sets just that, and tells whether that is new.
pub proof fn law_mode_action(p: models::PreferencesModel, m: DeliveryMode)
    ensures
        ({
            let after = settings::callback_outcome("mode:"@ + m.pref_word(), p);
            &&& after is Some
            &&& (after->0).preferences == (models::PreferencesModel { delivery_mode: m, ..p })
            &&& (after->0).changed == (p.delivery_mode != m)
        }),
{
    models::law_delivery_mode_round_trip(m);
    lemma_stored_words();
    reveal_strlit("mode:");
    if text::begins(m.pref_word(), "mode:"@) {
        assert(m.pref_word().take(5)[0] == 'm');
    }
    settings::lemma_prefixed("mode:"@, m.pref_word(), p);
}

/// The button of a family sets just that, and tells whether that is new.
pub proof fn law_family_action(p: models::PreferencesModel, t: FileType)
    ensures
        ({
            let after = settings::callback_outcome("type:"@ + t.pref_word(), p);
            &&& after is Some
            &&& (after->0).preferences == (models::PreferencesModel { file_type: t, ..p })
            &&& (after->0).changed == (p.file_type != t)
        }),
{
    models::law_file_type_round_trip(t);
    lemma_stored_words();
    reveal_strlit("type:");
    if text::begins(t.pref_word(), "type:"@) {
        assert(t.pref_word().take(5)[0] == 't');
    }
    settings::lemma_prefixed("type:"@, t.pref_word(), p);
}

/// The button of a way of sending PDF files sets just that, and tells whether that is new.
pub proof fn law_pdf_action(p: models::PreferencesModel, d: DocumentPageMode)
    ensures
        ({
            let after = settings::callback_outcome("pdf:"@ + d.pref_word(), p);
            &&& after is Some
            &&& (after->0).preferences == (models::PreferencesModel { pdf_mode: d, ..p })
            &&& (after->0).changed == (p.pdf_mode != d)
        }),
{
    models::law_page_mode_round_trip(d);
    lemma_stored_words();
    reveal_strlit("pdf:");
    if text::begins(d.pref_word(), "pdf:"@) {
        assert(d.pref_word().take(4)[0] == 'p');
    }
    settings::lemma_prefixed("pdf:"@, d.pref_word(), p);
}

/// The button of a way of sending DjVu files sets just that, and tells whether that is new.
pub proof fn law_djvu_action(p: models::PreferencesModel, d: DocumentPageMode)
    ensures
        ({
            let after = settings::callback_outcome("djvu:"@ + d.pref_word(), p);
            &&& after is Some
            &&& (after->0).preferences == (models::PreferencesModel { djvu_mode: d, ..p })
            &&& (after->0).changed == (p.djvu_mode != d)
        }),
{
    models::law_page_mode_round_trip(d);
    lemma_stored_words();
    reveal_strlit("djvu:");
    if text::begins(d.pref_word(), "djvu:"@) {
        assert(d.pref_word().take(5)[0] == 'd');
    }
    settings::lemma_prefixed("djvu:"@, d.pref_word(), p);
}

/// The words under which choices are stored.
proof fn lemma_stored_words()
    ensures
        "buttons"@[0] == 'b' && "links10"@[0] == 'l' && "images10"@[0] == 'i' && "images20"@[0]
            == 'i',
        "all"@[0] == 'a' && "images"@[0] == 'i' && "audio"@[0] == 'a' && "video"@[0] == 'v',
        "original"@[0] == 'o' && "rendered"@[0] == 'r',
{
    reveal_strlit("buttons");
    reveal_strlit("links10");
    reveal_strlit("images10");
    reveal_strlit("images20");
    reveal_strlit("all");
    reveal_strlit("images");
    reveal_strlit("audio");
    reveal_strlit("video");
    reveal_strlit("original");
    reveal_strlit("rendered");
}

/// The words under which choices are stored, shown and put on buttons.
pub proof fn law_stored_words()
    ensures
        DeliveryMode::Buttons.pref_word() == "buttons"@,
        DeliveryMode::Links10.pref_word() == "links10"@,
        DeliveryMode::Images10.pref_word() == "images10"@,
        DeliveryMode::Images20.pref_word() == "images20"@,
        FileType::All.pref_word() == "all"@,
        FileType::Images.pref_word() == "images"@,
        FileType::Audio.pref_word() == "audio"@,
        FileType::Video.pref_word() == "video"@,
        DocumentPageMode::Original.pref_word() == "original"@,
        DocumentPageMode::RenderedPages.pref_word() == "rendered"@,
{
}

/// A button is checked exactly where it is the one that is chosen, and its label follows the check.
pub proof fn law_check_marks(selected: bool, label: Seq<char>, data: Seq<char>)
    ensures
        settings::choice(selected, label, data).callback_data == Some(data),
        selected ==> settings::choice(selected, label, data).text == seq!['✅', ' '] + label,
        !selected ==> settings::choice(selected, label, data).text == label,
{
    reveal_strlit("✅ ");
    assert("✅ "@ =~= seq!['✅', ' ']);
}

/// The main menu shows what is chosen: of the modes, the families and the ways of sending documents
/// just the chosen one is checked, and of the switches those that are on. Each label stands on the
/// button for it.
pub proof fn law_main_menu(p: models::PreferencesModel)
    ensures
        ({
            let menu = settings::main_menu(p);
            &&& menu.len() == 12
            &&& menu[0].len() == 2
            &&& checked(menu[0][0], p.delivery_mode == DeliveryMode::Buttons, "Buttons"@, "pref:mode:buttons"@)
            &&& checked(menu[0][1], p.delivery_mode == DeliveryMode::Links10, "Links10"@, "pref:mode:links10"@)
            &&& menu[1].len() == 2
            &&& checked(menu[1][0], p.delivery_mode == DeliveryMode::Images10, "Images10"@, "pref:mode:images10"@)
            &&& checked(menu[1][1], p.delivery_mode == DeliveryMode::Images20, "Images20"@, "pref:mode:images20"@)
            &&& menu[2].len() == 2
            &&& checked(menu[2][0], p.file_type == FileType::All, "All"@, "pref:type:all"@)
            &&& checked(menu[2][1], p.file_type == FileType::Images, "Images"@, "pref:type:images"@)
            &&& menu[3].len() == 2
            &&& checked(menu[3][0], p.file_type == FileType::Audio, "Audio"@, "pref:type:audio"@)
            &&& checked(menu[3][1], p.file_type == FileType::Video, "Video"@, "pref:type:video"@)
            &&& menu[4].len() == 2
            &&& checked(menu[4][0], p.show_category_counts, "Category counts"@, "pref:toggle:category-counts"@)
            &&& checked(menu[4][1], p.show_file_size, "File size labels"@, "pref:toggle:filesize"@)
            &&& menu[5].len() == 2
            &&& checked(menu[5][0], p.show_preview_metadata, "Preview metadata"@, "pref:toggle:preview-metadata"@)
            &&& checked(menu[5][1], p.rich_image_previews, "Rich previews"@, "pref:toggle:rich-previews"@)
            &&& menu[6].len() == 1
            &&& checked(menu[6][0], p.category_file_buttons, "Category file buttons"@, "pref:toggle:category-file-buttons"@)
            &&& menu[7].len() == 2
            &&& checked(menu[7][0], p.show_sha1, "SHA-1"@, "pref:toggle:sha1"@)
            &&& checked(menu[7][1], p.pagination_enabled, "Pagination"@, "pref:toggle:pagination"@)
            &&& menu[9].len() == 2
            &&& checked(menu[9][0], p.pdf_mode == DocumentPageMode::Original, "PDF original"@, "pref:pdf:original"@)
            &&& checked(menu[9][1], p.pdf_mode == DocumentPageMode::RenderedPages, "PDF pages"@, "pref:pdf:rendered"@)
            &&& menu[10].len() == 2
            &&& checked(menu[10][0], p.djvu_mode == DocumentPageMode::Original, "DjVu original"@, "pref:djvu:original"@)
            &&& checked(menu[10][1], p.djvu_mode == DocumentPageMode::RenderedPages, "DjVu pages"@, "pref:djvu:rendered"@)
            &&& menu[8].len() == 3
            &&& forall|j: int|
                0 <= j < 3 ==> #[trigger] menu[8][j] == settings::choice(
                    models::inline_count(p.inline_result_count)
                        == models::INLINE_RESULT_COUNT_OPTIONS@[j],
                    "Inline "@ + numbers::numeral(
                        models::INLINE_RESULT_COUNT_OPTIONS@[j] as nat,
                    ),
                    "pref:inline:"@ + numbers::numeral(
                        models::INLINE_RESULT_COUNT_OPTIONS@[j] as nat,
                    ),
                )
            &&& menu[11].len() == 1 && menu[11][0].callback_data == Some("pref:ext"@)
            &&& p.extension is Some ==> menu[11][0].text == "Extension: "@ + p.extension->0
            &&& p.extension is None ==> menu[11][0].text == "Extension: all"@
        }),
{
    reveal_strlit("Extension: ");
    reveal_strlit("all");
    reveal_strlit("Extension: all");
    assert("Extension: "@ + "all"@ =~= "Extension: all"@);
    reveal_strlit("✅ ");
    assert("✅ "@ =~= seq!['✅', ' ']);
}

/// True of a button with a label and data that is checked where it is chosen.
pub open spec fn checked(
    b: telegram::ButtonView,
    chosen: bool,
    label: Seq<char>,
    data: Seq<char>,
) -> bool {
    &&& b.callback_data == Some(data)
    &&& chosen ==> b.text == seq!['✅', ' '] + label
    &&& !chosen ==> b.text == label
}

/// The extensions of a group stand in its menu, in order, three to a row, and each button sets its
/// extension.
pub proof fn law_extension_buttons(p: models::PreferencesModel, g: ExtensionGroup, n: int)
    requires
        0 <= n < g.members().len(),
    ensures
        n / 3 < settings::group_menu(p, g).len(),
        n % 3 < settings::group_menu(p, g)[n / 3].len(),
        checked(
            settings::group_menu(p, g)[n / 3][n % 3],
            p.extension == Some(g.members()[n]@),
            g.members()[n]@,
            "pref:ext:set:"@ + g.members()[n]@,
        ),
{
    reveal_strlit("✅ ");
    assert("✅ "@ =~= seq!['✅', ' ']);
    lemma_extension_rows(p, g.members(), 0, n);
    let rows = settings::extension_rows(p, g.members(), 0);
    assert(settings::group_menu(p, g)[n / 3] == rows[n / 3]);
}

proof fn lemma_extension_rows(p: models::PreferencesModel, exts: Seq<&'static str>, i: int, n: int)
    requires
        0 <= i <= n < exts.len(),
    ensures
        (n - i) / 3 < settings::extension_rows(p, exts, i).len(),
        (n - i) % 3 < settings::extension_rows(p, exts, i)[(n - i) / 3].len(),
        settings::extension_rows(p, exts, i)[(n - i) / 3][(n - i) % 3]
            == settings::extension_button(p, exts[n]@),
    decreases exts.len() - i,
{
    let rows = settings::extension_rows(p, exts, i);
    if n < i + 3 {
        assert((n - i) / 3 == 0 && (n - i) % 3 == n - i);
    } else {
        lemma_extension_rows(p, exts, i + 3, n);
        assert((n - i) / 3 == (n - (i + 3)) / 3 + 1 && (n - i) % 3 == (n - (i + 3)) % 3);
        assert(rows[(n - i) / 3] == settings::extension_rows(p, exts, i + 3)[(n - (i + 3)) / 3]);
    }
}

/// Setting an extension by its button keeps all else, and goes to the menu of its group.
pub proof fn law_extension_action(p: models::PreferencesModel, g: ExtensionGroup, n: int)
    requires
        0 <= n < g.members().len(),
    ensures
        ({
            let e = g.members()[n]@;
            let after = settings::callback_outcome("ext:set:"@ + e, p);
            &&& after is Some
            &&& (after->0).preferences == (models::PreferencesModel { extension: Some(e), ..p })
            &&& (after->0).changed == (p.extension != Some(e))
        }),
{
    settings::lemma_extension_action(g, n, p);
    let e = g.members()[n]@;
    settings::lemma_member_is_short(g, n);
    reveal_strlit("ext:set:");
    settings::lemma_prefixed("ext:set:"@, e, p);
}

} // verus!
