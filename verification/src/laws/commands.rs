//! Laws on commands: extensions, other words for a switch, and what is not understood.

use vstd::prelude::*;
use crate::laws::texts;
use crate::models;
use crate::models::{DeliveryMode, FileType};
use crate::numbers;
use crate::parser;
use crate::settings;
use crate::settings::ExtensionGroup;
use crate::text;

verus! {

/// The names of the choices are told apart by their letters.
proof fn lemma_choice_names()
    ensures
        "category-file-buttons"@.len() == 21 && "category-files"@.len() == 14,
        "inline"@.len() == 6 && "inline-count"@.len() == 12 && "mode"@.len() == 4 && "type"@.len()
            == 4 && "ext"@.len() == 3,
        "mode"@[0] == 'm' && "type"@[0] == 't' && "inline"@[0] == 'i' && "ext"@[0] == 'e',
        "category-file-buttons"@[0] == 'c' && "category-files"@[0] == 'c' && "inline-count"@[0]
            == 'i',
        "category-counts"@.len() == 15 && "sha1"@.len() == 4 && "sha1"@[0] == 's',
        "filesize"@.len() == 8 && "preview-metadata"@.len() == 16 && "metadata"@.len() == 8,
        "rich-previews"@.len() == 13 && "rich"@.len() == 4 && "rich"@[0] == 'r' && "pagination"@.len()
            == 10,
        "on"@.len() == 2 && "off"@.len() == 3 && "off"@[0] == 'o' && "buttons"@.len() == 7
            && "images"@.len() == 6,
{
    reveal_strlit("category-file-buttons");
    reveal_strlit("category-files");
    reveal_strlit("inline");
    reveal_strlit("inline-count");
    reveal_strlit("mode");
    reveal_strlit("type");
    reveal_strlit("ext");
    reveal_strlit("category-counts");
    reveal_strlit("sha1");
    reveal_strlit("filesize");
    reveal_strlit("preview-metadata");
    reveal_strlit("metadata");
    reveal_strlit("rich-previews");
    reveal_strlit("rich");
    reveal_strlit("pagination");
    reveal_strlit("on");
    reveal_strlit("off");
    reveal_strlit("buttons");
    reveal_strlit("images");
}

/// A command for an extension that is known sets just that, with or without a point before it.
pub proof fn law_extension_commands(
    tokens: Seq<Seq<char>>,
    p: models::PreferencesModel,
    g: ExtensionGroup,
    n: int,
)
    requires
        tokens.len() >= 3,
        text::lowered(tokens[1]) == "ext"@,
        0 <= n < g.members().len(),
        text::lowered(tokens[2]) == g.members()[n]@ || text::lowered(tokens[2]) == seq!['.']
            + g.members()[n]@,
    ensures
        settings::edited_by(tokens, p) == (models::PreferencesModel {
            extension: Some(g.members()[n]@),
            ..p
        }),
{
    lemma_choice_names();
    settings::lemma_member_is_short(g, n);
    let e = g.members()[n]@;
    let w = text::lowered(tokens[2]);
    let dot = text::just('.');
    assert(texts::all_in(seq!['.'], dot));
    texts::law_leading_dropped(seq!['.'], e, dot);
    texts::law_leading_dropped(seq![], e, dot);
    assert(seq![] + e =~= e);
    assert(text::drop_leading(w, dot) == e);
    assert(parser::bare_extension(e) == e);
    if w == "off"@ {
        assert(w[0] == 'o');
        lemma_not_off(g, n);
    }
}

/// No extension is the word that clears it.
proof fn lemma_not_off(g: ExtensionGroup, n: int)
    requires
        0 <= n < g.members().len(),
    ensures
        g.members()[n]@ != "off"@,
{
    reveal_strlit("off");
    reveal_strlit("oga");
    reveal_strlit("ogg");
    reveal_strlit("opus");
    reveal_strlit("ogv");
    reveal_strlit("gif");
    reveal_strlit("jpeg");
    reveal_strlit("jpg");
    reveal_strlit("png");
    reveal_strlit("svg");
    reveal_strlit("tif");
    reveal_strlit("tiff");
    reveal_strlit("webp");
    reveal_strlit("xcf");
    reveal_strlit("flac");
    reveal_strlit("mid");
    reveal_strlit("midi");
    reveal_strlit("mp3");
    reveal_strlit("wav");
    reveal_strlit("mpeg");
    reveal_strlit("mpg");
    reveal_strlit("webm");
    reveal_strlit("djvu");
    reveal_strlit("pdf");
    reveal_strlit("stl");
    let e = g.members()[n]@;
    let off = "off"@;
    assert(off.len() == 3 && off[0] == 'o' && off[1] == 'f');
    assert(e.len() != 3 || e[0] != 'o' || e[1] != 'f');
}

/// The files of a category are shown as buttons or as images by these words too.
pub proof fn law_category_file_words(tokens: Seq<Seq<char>>, p: models::PreferencesModel)
    requires
        tokens.len() >= 3,
        text::lowered(tokens[1]) == "category-files"@ || text::lowered(tokens[1])
            == "category-file-buttons"@,
    ensures
        text::lowered(tokens[2]) == "buttons"@ ==> settings::edited_by(tokens, p) == (
        models::PreferencesModel { category_file_buttons: true, ..p }),
        text::lowered(tokens[2]) == "images"@ ==> settings::edited_by(tokens, p) == (
        models::PreferencesModel { category_file_buttons: false, ..p }),
{
    lemma_choice_names();
}

/// A number of inline results that is not offered sets the usual one.
pub proof fn law_count_commands(
    tokens: Seq<Seq<char>>,
    p: models::PreferencesModel,
    n: usize,
)
    requires
        tokens.len() >= 3,
        text::lowered(tokens[1]) == "inline"@ || text::lowered(tokens[1]) == "inline-count"@,
        numbers::unsigned_value(text::lowered(tokens[2]), usize::MAX as nat) == Some(n as nat),
        n != 10 && n != 20 && n != 50,
    ensures
        settings::edited_by(tokens, p) == (models::PreferencesModel {
            inline_result_count: 50,
            ..p
        }),
{
    lemma_choice_names();
    let o = models::INLINE_RESULT_COUNT_OPTIONS@;
    assert(o[0] == 10 && o[1] == 20 && o[2] == 50);
}

/// A word that a command does not know changes nothing.
pub proof fn law_unknown_words(tokens: Seq<Seq<char>>, p: models::PreferencesModel)
    requires
        tokens.len() >= 3,
    ensures
        ({
            let name = text::lowered(tokens[1]);
            let word = text::lowered(tokens[2]);
            let after = settings::edited_by(tokens, p);
            let switch = name == "category-counts"@ || name == "sha1"@ || name == "filesize"@ || name
                == "preview-metadata"@ || name == "metadata"@ || name == "rich-previews"@ || name
                == "rich"@ || name == "pagination"@;
            &&& switch && word != "on"@ && word != "off"@ ==> after == p
            &&& name == "mode"@ && DeliveryMode::of_word(models::word(word)) is None ==> after == p
            &&& name == "type"@ && FileType::of_word(models::word(word)) is None ==> after == p
            &&& (name == "inline"@ || name == "inline-count"@) && numbers::unsigned_value(
                word,
                usize::MAX as nat,
            ) is None ==> after == p
            &&& name == "ext"@ && word != "off"@ && !text::among(
                models::COMMONS_SUPPORTED_EXTENSIONS@,
                text::lowered(text::drop_leading(word, text::just('.'))),
            ) ==> after == p
        }),
{
    lemma_choice_names();
    let word = text::lowered(tokens[2]);
    let dot = text::just('.');
    let e = text::drop_leading(word, dot);
    lemma_dropped_once(word, dot);
    assert(parser::bare_extension(e) == text::lowered(e));
}

/// What is left behind the leading characters of a class does not begin with one.
proof fn lemma_dropped_once(s: Seq<char>, p: spec_fn(char) -> bool)
    ensures
        text::drop_leading(text::drop_leading(s, p), p) == text::drop_leading(s, p),
    decreases s.len(),
{
    if s.len() > 0 && p(s[0]) {
        lemma_dropped_once(s.skip(1), p);
    }
}

/// A name that is none of a preference changes nothing.
pub proof fn law_unknown_names(tokens: Seq<Seq<char>>, p: models::PreferencesModel)
    requires
        tokens.len() >= 3,
        text::lowered(tokens[1]).len() > 21,
    ensures
        settings::edited_by(tokens, p) == p,
{
    lemma_choice_names();
    reveal_strlit("favorite");
    reveal_strlit("blacklist-category");
    reveal_strlit("blacklist-user");
    assert("favorite"@.len() == 8 && "blacklist-category"@.len() == 18 && "blacklist-user"@.len()
        == 14);
}

} // verus!
