//! Laws on the lists that are sent, on short captions, and on what is not said twice.

use vstd::prelude::*;
use crate::config::Config;
use crate::conversation;
use crate::conversation::{Event, KeepView, Situation, Stage};
use crate::escaping;
use crate::laws::texts;
use crate::models;
use crate::models::{CategoryHit, DeliveryMode, FileHit};
use crate::numbers;
use crate::pagination;
use crate::pagination::PaginatedPage;
use crate::telegram;
use crate::telegram::{InlineView, Update};
use crate::text;

verus! {

// Lists.

/// A list of categories shows its first page, under its title; its pages are asked for under a
/// letter of their own where they are subcategories.
pub proof fn law_category_list(
    title: Seq<char>,
    list: Seq<CategoryHit>,
    token: Option<Seq<char>>,
)
    ensures
        ({
            let reply = telegram::category_list(title, list, token);
            let total = pagination::pages(list.len());
            let kind = if title == "Subcategories"@ {
                seq!['s']
            } else {
                seq!['c']
            };
            &&& list.len() <= 20 ==> reply.text == title && reply.rows == Some(
                telegram::category_rows(list),
            )
            &&& list.len() > 20 ==> reply.text == title + " 1/"@ + numbers::numeral(total)
            &&& list.len() > 20 && token is Some ==> reply.rows == Some(
                telegram::category_rows(list).push(telegram::navigation(kind, token->0, 0, total)),
            )
        }),
{
    reveal_strlit("s");
    reveal_strlit("c");
    reveal_strlit(" ");
    reveal_strlit("/");
    reveal_strlit(" 1/");
    assert("s"@ =~= seq!['s'] && "c"@ =~= seq!['c']);
    let n = list.len();
    if n <= 20 {
        assert(pagination::pages(n) == 1);
    } else {
        let t = numbers::numeral(pagination::pages(n));
        assert(pagination::pages(n) > 1);
        assert(numbers::numeral(1) =~= seq!['1']);
        assert(title + " "@ + numbers::numeral(1) + "/"@ + t =~= title + " 1/"@ + t);
    }
}

/// The inline answers come in the order of the files; files that cannot be shown are passed over.
/// A photo is shown by its thumbnail where it has one.
pub proof fn law_inline_list(files: Seq<FileHit>, f: FileHit)
    ensures
        ({
            let before = telegram::inline_views(files);
            let after = telegram::inline_views(files.push(f));
            let shown = telegram::inline_view(f);
            &&& shown is Some ==> after == before.push(shown->0)
            &&& shown is None ==> after == before
            &&& shown is Some && shown->0 is Photo && f.thumb_url is Some
                ==> shown->0->thumbnail_url == (f.thumb_url->0)@
            &&& shown is Some && shown->0 is Photo && f.thumb_url is None
                ==> shown->0->thumbnail_url == shown->0->photo_url
            &&& shown is Some && shown->0 is Photo ==> shown->0->Photo_description
                == telegram::inline_text(f)
            &&& shown is Some && shown->0 is Article ==> shown->0->Article_description
                == telegram::inline_text(f)
        }),
        telegram::inline_views(seq![]) == Seq::<InlineView>::empty(),
{
    assert(files.push(f).drop_last() =~= files);
}

/// Files that were found are sent as their list. It is kept under the digest of the files where
/// there is more than a page of it and it can be paged through.
pub proof fn law_list_of_files(c: Situation, u: Update, config: Config, files: Vec<FileHit>)
    requires
        c.stage == Stage::Files,
        !c.query.links_flag && !c.query.image_previews_flag,
        c.preferences.delivery_mode == DeliveryMode::Buttons,
    ensures
        ({
            let action = conversation::next(c, u, config, Event::Files(files)).1;
            let token = pagination::token_of(pagination::files_bytes(files@));
            let paged = files@.len() > 20 && c.preferences.pagination_enabled;
            &&& action is Send
            &&& paged ==> action->Send_reply == telegram::file_list(
                files@,
                c.preferences,
                Some(token),
            ) && action->Send_keep == (KeepView::Files { token, files: files@ })
            &&& !paged ==> action->Send_reply == telegram::file_list(files@, c.preferences, None)
                && action->Send_keep == KeepView::Nothing
        }),
{
    reveal(conversation::delivered);
}

/// Categories that were found are sent as their list, under a title that tells whether they are
/// the closest ones.
pub proof fn law_list_of_categories(
    c: Situation,
    u: Update,
    config: Config,
    list: Vec<CategoryHit>,
)
    requires
        c.stage == Stage::Categories || c.stage == Stage::NearbyCategories,
        !c.preferences.show_category_counts,
        list@.len() > 0,
    ensures
        ({
            let action = conversation::next(c, u, config, Event::Categories(list)).1;
            let bytes = pagination::categories_bytes(list@);
            let paged = list@.len() > 20 && c.preferences.pagination_enabled;
            let token = if paged {
                Some(pagination::token_of(bytes))
            } else {
                None
            };
            &&& action is Send
            &&& c.stage == Stage::NearbyCategories ==> action->Send_reply == telegram::category_list(
                "Closest categories"@,
                list@,
                token,
            )
            &&& c.stage == Stage::Categories ==> action->Send_reply == telegram::category_list(
                "Categories"@,
                list@,
                token,
            )
        }),
{
    reveal(conversation::found);
    reveal(conversation::listed);
}

/// A page that is shown has the buttons of its files or categories, and those to its neighbours.
/// Its title tells categories and subcategories apart by the letter of the page.
pub proof fn law_page_rows(
    c: Situation,
    u: Update,
    config: Config,
    files: PaginatedPage<FileHit>,
    categories: PaginatedPage<CategoryHit>,
)
    requires
        files.page_index < usize::MAX && categories.page_index < usize::MAX,
    ensures
        ({
            let a = conversation::next(c, u, config, Event::FilePage(Some(files))).1;
            let b = conversation::next(c, u, config, Event::CategoryPage(Some(categories))).1;
            let token = conversation::asked_token(c.topic);
            let kind = conversation::asked_kind(c.topic);
            let i = categories.page_index as nat;
            let n = categories.total_pages as nat;
            &&& c.stage == Stage::FilePage ==> a is Send && a->Send_reply.rows == Some(
                telegram::paged_rows(
                    telegram::file_rows(files.items@, c.preferences),
                    "f"@,
                    Some(token),
                    files.page_index as nat,
                    files.total_pages as nat,
                ),
            )
            &&& c.stage == Stage::CategoryPage ==> b is Send && b->Send_reply.rows == Some(
                telegram::paged_rows(
                    telegram::category_rows(categories.items@),
                    kind,
                    Some(token),
                    i,
                    n,
                ),
            )
            &&& c.stage == Stage::CategoryPage && kind == "s"@ ==> b->Send_reply.text
                == telegram::heading("Subcategories"@, i, n)
            &&& c.stage == Stage::CategoryPage && kind != "s"@ ==> b->Send_reply.text
                == telegram::heading("Categories"@, i, n)
        }),
{
    reveal(conversation::file_page_taken);
    reveal(conversation::category_page_taken);
}

/// The digest of a list is written as sixteen digits of base sixteen.
pub proof fn law_tokens(bytes: Seq<u8>)
    ensures
        escaping::sha256(bytes).len() == 32 ==> pagination::token_of(bytes).len() == 16
            && pagination::token_of(bytes) == escaping::hex_text(
            escaping::sha256(bytes).take(8),
        ),
{
    let d = escaping::sha256(bytes);
    if d.len() == 32 {
        lemma_first_digits(d);
    }
}

proof fn lemma_first_digits(d: Seq<u8>)
    requires
        d.len() == 32,
    ensures
        escaping::hex_text(d).take(16) == escaping::hex_text(d.take(8)),
{
    let a = escaping::hex_text(d).take(16);
    let b = escaping::hex_text(d.take(8));
    assert forall|i: int| 0 <= i < 16 implies a[i] == b[i] by {
        assert(d.take(8)[i / 2] == d[i / 2]);
    }
    assert(a =~= b);
}

// Markup.

/// In an attribute quotes are escaped too.
pub proof fn law_quotes_are_escaped(a: Seq<char>, b: Seq<char>)
    ensures
        escaping::html_attribute(a + seq!['"'] + b) == escaping::html_attribute(a) + "&quot;"@
            + escaping::html_attribute(b),
        escaping::html_attribute(a + seq!['&'] + b) == escaping::html_attribute(a) + "&amp;"@
            + escaping::html_attribute(b),
        escaping::html_attribute(a + seq!['<'] + b) == escaping::html_attribute(a) + "&lt;"@
            + escaping::html_attribute(b),
        escaping::html_attribute(a + seq!['>'] + b) == escaping::html_attribute(a) + "&gt;"@
            + escaping::html_attribute(b),
{
    lemma_one_escaped(a, '"', b);
    lemma_one_escaped(a, '&', b);
    lemma_one_escaped(a, '<', b);
    lemma_one_escaped(a, '>', b);
}

proof fn lemma_one_escaped(a: Seq<char>, x: char, b: Seq<char>)
    ensures
        escaping::html_attribute(a + seq![x] + b) == escaping::html_attribute(a)
            + escaping::html_attribute_char()(x) + escaping::html_attribute(b),
{
    let f = escaping::html_attribute_char();
    texts::law_expanded(a + seq![x], b, x, f);
    texts::law_expanded(a, seq![x], x, f);
}

/// A link has its address and its label, and a file without a page has none.
pub proof fn law_link_to_file(f: FileHit)
    ensures
        f.description_url is None ==> telegram::link_to_file(f) is None,
        f.description_url is Some ==> telegram::link_to_file(f) == Some(
            "<a href=\""@ + escaping::html_attribute((f.description_url->0)@) + "\">"@
                + escaping::html_text(f.file_name@) + "</a>"@,
        ),
{
}

/// A picture of a rich message has the details of its file where they are asked for and fit, and
/// the link to the file where they are not asked for.
pub proof fn law_file_figures(f: FileHit, p: models::PreferencesModel, url: Seq<char>)
    ensures
        ({
            let shown = telegram::file_figure(f, p, url);
            let full = telegram::figure(
                url,
                text::joined(telegram::metadata_lines(f, p), seq!['\n']),
            );
            let link = telegram::figure(
                url,
                telegram::link((f.description_url->0)@, f.file_name@),
            );
            &&& p.show_preview_metadata && full.len() <= 32_768 ==> shown == full
            &&& p.show_preview_metadata && full.len() > 32_768 ==> shown == telegram::figure(
                url,
                telegram::compact_caption(f, p),
            )
            &&& !p.show_preview_metadata && f.description_url is Some && link.len() <= 32_768
                ==> shown == link
        }),
{
    reveal_strlit("\n");
    assert("\n"@ =~= seq!['\n']);
}

// Details.

/// The dimensions of pictures, films and documents are told where both are known and not zero, and
/// those of nothing else.
pub proof fn law_dimensions(f: FileHit, rest: Seq<char>)
    requires
        f.width is Some && f.height is Some && f.mime is Some,
    ensures
        ({
            let m = (f.mime->0)@;
            let seen = m == "image/"@ + rest || m == "video/"@ + rest || m == "application/pdf"@;
            let told = telegram::dimensions_line(f);
            &&& seen && f.width->0 > 0 && f.height->0 > 0 ==> told == Some(
                "Dimensions: "@ + numbers::numeral(f.width->0 as nat) + " x "@ + numbers::numeral(
                    f.height->0 as nat,
                ),
            )
            &&& f.width->0 == 0 || f.height->0 == 0 ==> told is None
            &&& m == "audio/"@ + rest ==> told is None
        }),
{
    texts::law_begins_and_finishes(rest, "image/"@, rest);
    texts::law_begins_and_finishes(rest, "video/"@, rest);
    reveal_strlit("audio/");
    reveal_strlit("image/");
    reveal_strlit("video/");
    reveal_strlit("application/pdf");
    reveal_strlit("image/vnd.djvu");
    let a = "audio/"@ + rest;
    assert(a[1] == 'u');
    if text::begins(a, "image/"@) {
        assert(a.take(6)[0] == 'i');
    }
    if text::begins(a, "video/"@) {
        assert(a.take(6)[0] == 'v');
    }
    assert("application/pdf"@[1] == 'p' && "image/vnd.djvu"@[0] == 'i');
}

/// A line, where there is one.
pub open spec fn maybe(s: Option<Seq<char>>) -> Seq<Seq<char>> {
    match s {
        Some(t) => seq![t],
        None => Seq::<Seq<char>>::empty(),
    }
}

/// The order in which the details of a file are told: its title, its license, what it shows, who
/// it is from, when it was made, how it was taken, and where.
pub proof fn law_order_of_details(f: FileHit, p: models::PreferencesModel)
    ensures
        telegram::metadata_lines(f, p) == seq![telegram::title_line(f, false)] + maybe(
            telegram::license_line(f, false),
        ) + maybe(telegram::caption_line(f, false)) + maybe(telegram::description_line(f, false))
            + maybe(telegram::uploader_line(f, false)) + maybe(telegram::author_line(f, false))
            + maybe(telegram::uploaded_line(f)) + maybe(telegram::date_line(f, false)) + maybe(
            telegram::dimensions_line(f),
        ) + maybe(telegram::camera_line(f, false)) + telegram::exif_lines(f, false) + maybe(
            telegram::animated_line(f),
        ) + maybe(telegram::duration_line(f)) + maybe(telegram::place_line(f)) + maybe(
            telegram::versions_line(f),
        ) + maybe(telegram::sha1_line(f, p.show_sha1)) + maybe(telegram::history_line(f)),
        telegram::compact_lines(f, p) == seq![telegram::title_line(f, true)] + maybe(
            telegram::license_line(f, true),
        ) + maybe(telegram::caption_line(f, true)) + maybe(telegram::description_line(f, true))
            + maybe(telegram::uploader_line(f, true)) + maybe(telegram::author_line(f, true))
            + maybe(telegram::uploaded_line(f)) + maybe(telegram::date_line(f, true)) + maybe(
            telegram::dimensions_line(f),
        ) + maybe(telegram::camera_line(f, true)) + telegram::exif_lines(f, true) + maybe(
            telegram::animated_line(f),
        ) + maybe(telegram::place_line(f)) + maybe(telegram::versions_line(f)) + maybe(
            telegram::sha1_line(f, p.show_sha1),
        ),
{
    lemma_maybe();
}

proof fn lemma_maybe()
    ensures
        forall|s: Option<Seq<char>>| #[trigger] telegram::line(s) == maybe(s),
{
    assert forall|s: Option<Seq<char>>| #[trigger] telegram::line(s) == maybe(s) by {
        assert(telegram::line(s) =~= maybe(s));
    }
}

// Short captions.

/// Space in a text is squeezed: a word and the words behind it have one blank between them.
pub proof fn law_squeezed(w: Seq<char>, a: Seq<char>, rest: Seq<char>)
    requires
        texts::all_in(w, text::white_class()),
        a.len() > 0,
        forall|i: int| 0 <= i < a.len() ==> !text::is_white(#[trigger] a[i]),
        rest.len() == 0 || text::is_white(rest[0]),
    ensures
        text::words(rest).len() == 0 ==> telegram::squeezed(w + a + rest) == a,
        text::words(rest).len() > 0 ==> telegram::squeezed(w + a + rest) == a + seq![' ']
            + telegram::squeezed(rest),
        telegram::squeezed(w) == Seq::<char>::empty(),
{
    reveal_strlit(" ");
    assert(" "@ =~= seq![' ']);
    texts::law_first_word(w, a, rest);
    texts::law_joined_few(a, " "@);
    let list = text::words(rest);
    if list.len() > 0 {
        texts::law_joined_in_order(seq![a], list, " "@);
    } else {
        assert(seq![a] + list =~= seq![a]);
    }
    texts::law_no_word(w);
}

/// A short caption begins with the name of the file, of at most 120 characters, and tells the
/// license as a link.
pub proof fn law_compact_start(f: FileHit, p: models::PreferencesModel)
    ensures
        ({
            let lines = telegram::compact_lines(f, p);
            let name = text::shortened(telegram::squeezed(f.file_name@), 120);
            &&& lines.len() > 0
            &&& f.description_url is Some ==> lines[0] == "<b>"@ + telegram::link(
                (f.description_url->0)@,
                name,
            ) + "</b>"@
            &&& f.description_url is None ==> lines[0] == "<b>"@ + escaping::html_text(name)
                + "</b>"@
            &&& f.license_short_name is Some && f.license_url is Some ==> lines.len() > 1
                && lines[1] == telegram::link(
                (f.license_url->0)@,
                text::shortened(telegram::squeezed((f.license_short_name->0)@), 40),
            )
        }),
{
}

/// The author is told unless it is the uploader under the same name, whatever the case, the space
/// and the underscores; the description is told unless it is the caption.
pub proof fn law_nothing_is_told_twice(f: FileHit)
    ensures
        f.artist is None ==> telegram::author_line(f, false) is None,
        f.artist is Some && f.uploader is None ==> telegram::author_line(f, false) == Some(
            "Author: "@ + escaping::html_text((f.artist->0)@),
        ),
        f.artist is Some && f.uploader is Some && (f.artist->0)@ == (f.uploader->0)@
            ==> telegram::author_line(f, false) is None,
        f.artist is Some && f.uploader is Some && text::lower_text(
            telegram::squeezed(spaced((f.artist->0)@)),
        ) != text::lower_text(telegram::squeezed(spaced((f.uploader->0)@)))
            ==> telegram::author_line(f, false) == Some(
            "Author: "@ + escaping::html_text((f.artist->0)@),
        ),
        f.artist is Some && f.uploader is Some && text::lower_text(
            telegram::squeezed(spaced((f.artist->0)@)),
        ) == text::lower_text(telegram::squeezed(spaced((f.uploader->0)@)))
            ==> telegram::author_line(f, false) is None,
        f.description_text is Some && f.caption_text is Some && (f.description_text->0)@ == (
        f.caption_text->0)@ ==> telegram::description_line(f, false) is None,
        f.description_text is Some && (f.description_text->0)@.len() > 0 && f.caption_text is Some
            && text::lower_text(telegram::squeezed((f.description_text->0)@)) != text::lower_text(
            telegram::squeezed((f.caption_text->0)@),
        ) ==> telegram::description_line(f, false) == Some(
            "Description: "@ + escaping::html_text((f.description_text->0)@),
        ),
{
    reveal_strlit(" ");
    assert(" "@ =~= seq![' ']);
    if f.artist is Some {
        texts::law_replaced_character((f.artist->0)@, '_', ' ');
    }
    if f.uploader is Some {
        texts::law_replaced_character((f.uploader->0)@, '_', ' ');
    }
}

/// A text with blanks for underscores.
pub open spec fn spaced(s: Seq<char>) -> Seq<char> {
    Seq::new(
        s.len(),
        |i: int|
            if s[i] == '_' {
                ' '
            } else {
                s[i]
            },
    )
}

} // verus!
