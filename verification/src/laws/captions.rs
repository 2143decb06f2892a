//! Laws on captions, rich messages, and the texts of the settings.

use vstd::prelude::*;
use crate::laws::choices;
use crate::laws::formats;
use crate::models;
use crate::models::FileHit;
use crate::numbers;
use crate::settings;
use crate::settings::{ExtensionGroup, PreferencesView};
use crate::telegram;
use crate::text;

verus! {

// Captions.

/// A caption has at most 1024 characters. The details of a file are its caption, a line each,
/// where they fit and are asked for; where they are not asked for, the link to the file is.
pub proof fn law_photo_captions(file: FileHit, p: models::PreferencesModel)
    ensures
        ({
            let caption = telegram::photo_caption(file, p);
            let full = text::joined(telegram::metadata_lines(file, p), seq!['\n']);
            &&& caption is Some ==> (caption->0).len() <= 1024
            &&& p.show_preview_metadata ==> caption is Some
            &&& p.show_preview_metadata && full.len() <= 1024 ==> caption == Some(full)
            &&& !p.show_preview_metadata && file.description_url is None ==> caption is None
            &&& !p.show_preview_metadata && file.description_url is Some && telegram::link(
                (file.description_url->0)@,
                file.file_name@,
            ).len() <= 1024 ==> caption == Some(
                telegram::link((file.description_url->0)@, file.file_name@),
            )
        }),
{
    telegram::law_photo_caption_fits(file, p);
    telegram::law_fitting_caption_is_kept(file, p);
    reveal_strlit("\n");
    assert("\n"@ =~= seq!['\n']);
}

/// True of a line of the exposure details, or of the history.
pub open spec fn is_minor(s: Seq<char>) -> bool {
    ||| text::holds(s, ">F-number</a>:"@) || text::begins(s, "F-number:"@)
    ||| text::holds(s, ">ISO speed rating</a>:"@) || text::begins(s, "ISO speed rating:"@)
    ||| text::holds(s, ">Lens focal length</a>:"@) || text::begins(s, "Lens focal length:"@)
    ||| text::holds(s, ">Exposure time</a>:"@) || text::begins(s, "Exposure time:"@)
    ||| text::holds(s, ">History</a>"@) || s == "History"@
}

/// Lines that fit are all kept. Of lines that do not, only minor ones are left out, and nothing is
/// put in.
pub proof fn law_only_minor_lines_go(lines: Seq<Seq<char>>, x: Seq<char>)
    ensures
        text::joined(lines, seq!['\n']).len() <= 1024 ==> telegram::pruned(lines, 0) == lines,
        telegram::pruned(lines, 0).contains(x) ==> lines.contains(x),
        lines.contains(x) && !is_minor(x) ==> telegram::pruned(lines, 0).contains(x),
        telegram::pruned(lines, 0).len() + 5 >= lines.len(),
{
    reveal_strlit("\n");
    assert("\n"@ =~= seq!['\n']);
    lemma_pruned(lines, 0, x);
}

proof fn lemma_pruned(lines: Seq<Seq<char>>, kind: int, x: Seq<char>)
    requires
        0 <= kind <= 5,
    ensures
        telegram::pruned(lines, kind).contains(x) ==> lines.contains(x),
        lines.contains(x) && !is_minor(x) ==> telegram::pruned(lines, kind).contains(x),
        telegram::pruned(lines, kind).len() + (5 - kind) >= lines.len(),
    decreases 5 - kind,
{
    if kind < 5 && !telegram::caption_fits(telegram::caption_of(lines)) {
        let fewer = telegram::without_kind(lines, kind);
        let i = telegram::first_of_kind(lines, kind, 0);
        lemma_first_of_kind(lines, kind, 0);
        if i < lines.len() {
            if fewer.contains(x) {
                let k = choose|k: int| 0 <= k < fewer.len() && fewer[k] == x;
                if k < i {
                    assert(lines[k] == x);
                } else {
                    assert(lines[k + 1] == x);
                }
            }
            if lines.contains(x) && !is_minor(x) {
                let k = choose|k: int| 0 <= k < lines.len() && lines[k] == x;
                assert(k != i);
                if k < i {
                    assert(fewer[k] == x);
                } else {
                    assert(fewer[k - 1] == x);
                }
            }
        }
        lemma_pruned(fewer, kind + 1, x);
    }
}

proof fn lemma_first_of_kind(lines: Seq<Seq<char>>, kind: int, i: int)
    requires
        0 <= i <= lines.len(),
    ensures
        i <= telegram::first_of_kind(lines, kind, i) <= lines.len(),
        telegram::first_of_kind(lines, kind, i) < lines.len() ==> telegram::low_priority(
            kind,
            lines[telegram::first_of_kind(lines, kind, i)],
        ),
        forall|k: int|
            i <= k < telegram::first_of_kind(lines, kind, i) ==> !telegram::low_priority(
                kind,
                #[trigger] lines[k],
            ),
    decreases lines.len() - i,
{
    if i < lines.len() && !telegram::low_priority(kind, lines[i]) {
        lemma_first_of_kind(lines, kind, i + 1);
    }
}

/// Where the caption fits without the aperture, just that is left out.
pub proof fn law_aperture_goes_first(lines: Seq<Seq<char>>, i: int)
    requires
        0 <= i < lines.len(),
        text::begins(lines[i], "F-number:"@) || text::holds(lines[i], ">F-number</a>:"@),
        forall|k: int|
            0 <= k < i ==> !text::begins(#[trigger] lines[k], "F-number:"@) && !text::holds(
                lines[k],
                ">F-number</a>:"@,
            ),
        text::joined(lines, seq!['\n']).len() > 1024,
        text::joined(lines.remove(i), seq!['\n']).len() <= 1024,
    ensures
        telegram::pruned(lines, 0) == lines.remove(i),
{
    reveal_strlit("\n");
    assert("\n"@ =~= seq!['\n']);
    lemma_first_of_kind(lines, 0, 0);
    let k = telegram::first_of_kind(lines, 0, 0);
    if k < i {
        assert(telegram::low_priority(0, lines[k]));
    }
    if i < k {
        assert(!telegram::low_priority(0, lines[i]));
    }
    reveal_with_fuel(telegram::pruned, 2);
}

/// A short caption is cut at the end of a line: it has as many lines as fit.
pub proof fn law_cut_captions(lines: Seq<Seq<char>>, file: FileHit, n: int)
    requires
        1 <= n <= lines.len(),
        text::joined(lines.take(n), seq!['\n']).len() <= 1024,
        forall|k: int|
            n < k <= lines.len() ==> text::joined(#[trigger] lines.take(k), seq!['\n']).len() > 1024,
    ensures
        telegram::cut_caption(lines, file) == text::joined(lines.take(n), seq!['\n']),
    decreases lines.len(),
{
    reveal_strlit("\n");
    assert("\n"@ =~= seq!['\n']);
    assert(lines.take(lines.len() as int) =~= lines);
    if n < lines.len() {
        let fewer = lines.drop_last();
        assert(fewer.take(n) =~= lines.take(n));
        assert forall|k: int| n < k <= fewer.len() implies text::joined(
            #[trigger] fewer.take(k),
            seq!['\n'],
        ).len() > 1024 by {
            assert(fewer.take(k) =~= lines.take(k));
        }
        law_cut_captions(fewer, file, n);
    }
}

/// A picture of a rich message: its address, and its caption with breaks for its lines.
pub proof fn law_figures(url: Seq<char>, caption: Seq<char>)
    ensures
        !caption.contains('\n') ==> telegram::figure(url, caption) == "<figure><img src=\""@
            + crate::escaping::html_attribute(url) + "\"/><figcaption>"@ + caption
            + "</figcaption></figure>"@,
{
    if !caption.contains('\n') {
        lemma_unchanged(caption);
    }
}

proof fn lemma_unchanged(s: Seq<char>)
    requires
        !s.contains('\n'),
    ensures
        text::expanded(s, text::substitution('\n', "<br>"@)) == s,
    decreases s.len(),
{
    let f = text::substitution('\n', "<br>"@);
    if s.len() > 0 {
        assert(s.contains(s.last()));
        assert forall|x: char| s.drop_last().contains(x) implies s.contains(x) by {
            let i = choose|i: int| 0 <= i < s.drop_last().len() && s.drop_last()[i] == x;
            assert(s[i] == x);
        }
        lemma_unchanged(s.drop_last());
        assert(f(s.last()) == seq![s.last()]);
        assert(s =~= s.drop_last() + seq![s.last()]);
    } else {
        assert(s =~= Seq::<char>::empty());
    }
}

/// A rich message holds at most 32768 characters, and what was already there stays at its front.
pub proof fn law_rich_messages(
    html: Seq<char>,
    files: Seq<FileHit>,
    p: models::PreferencesModel,
    i: int,
)
    requires
        html.len() <= 32_768,
    ensures
        telegram::rich_from(html, files, p, i).len() <= 32_768,
        telegram::rich_from(html, files, p, i).len() >= html.len(),
        telegram::rich_from(html, files, p, i).take(html.len() as int) == html,
    decreases files.len() - i,
{
    let all = telegram::rich_from(html, files, p, i);
    if 0 <= i < files.len() {
        match telegram::preview_address(files[i]) {
            Some(url) => {
                let next = telegram::with_figure(html, telegram::file_figure(files[i], p, url));
                if telegram::rich_fits(next) {
                    law_rich_messages(next, files, p, i + 1);
                    assert(next.take(html.len() as int) =~= html);
                    assert(all.take(html.len() as int) =~= all.take(next.len() as int).take(
                        html.len() as int,
                    ));
                } else {
                    assert(all.take(html.len() as int) =~= html);
                }
            },
            None => law_rich_messages(html, files, p, i + 1),
        }
    } else {
        assert(all.take(html.len() as int) =~= html);
    }
}

/// Files without a preview are passed over, and the figures of the others follow one another, each
/// on a line of its own.
pub proof fn law_rich_steps(
    html: Seq<char>,
    files: Seq<FileHit>,
    p: models::PreferencesModel,
    i: int,
)
    requires
        0 <= i < files.len(),
    ensures
        ({
            let shown = telegram::preview_addresses(files[i]);
            let rich = telegram::rich_from(html, files, p, i);
            &&& shown.len() == 0 ==> rich == telegram::rich_from(html, files, p, i + 1)
            &&& shown.len() > 0 ==> {
                let figure = telegram::file_figure(files[i], p, shown[0]);
                let next = if html.len() == 0 {
                    figure
                } else {
                    html + seq!['\n'] + figure
                };
                &&& next.len() <= 32_768 ==> rich == telegram::rich_from(next, files, p, i + 1)
                &&& next.len() > 32_768 ==> rich == html
            }
        }),
{
    reveal_strlit("\n");
    assert("\n"@ =~= seq!['\n']);
}

// The settings.

/// What a text holds, a longer one does.
proof fn lemma_longer(s: Seq<char>, m: Seq<char>, more: Seq<char>)
    requires
        text::holds(s, m),
    ensures
        text::holds(s + more, m),
{
    let i = choose|i: int| text::occurs_at(s, m, i);
    assert((s + more).subrange(i, i + m.len()) =~= s.subrange(i, i + m.len()));
    assert(text::occurs_at(s + more, m, i));
}

/// A text holds what it ends with.
proof fn lemma_end(s: Seq<char>, a: Seq<char>, b: Seq<char>)
    ensures
        text::holds(s + a + b, a + b),
{
    let m = a + b;
    let all = s + a + b;
    let k = s.len() as int;
    assert(all.subrange(k, k + m.len()) =~= m);
    assert(text::occurs_at(all, m, k));
}

/// The text of the settings tells each preference under its name.
#[verifier::rlimit(40)]
pub proof fn law_settings_text(p: models::PreferencesModel, stateless: bool)
    ensures
        ({
            let all = settings::preferences_text(p, stateless);
            &&& stateless ==> text::holds(all, "Preferences ("@ + "stateless mode, not saved"@)
            &&& !stateless ==> text::holds(
                all,
                "Preferences ("@ + "saved in DynamoDB when configured"@,
            )
            &&& p.show_category_counts ==> text::holds(all, ")\n\nCategory counts: "@ + "yes"@)
            &&& !p.show_category_counts ==> text::holds(all, ")\n\nCategory counts: "@ + "no"@)
            &&& p.show_preview_metadata ==> text::holds(all, "\nPreview metadata: "@ + "yes"@)
            &&& !p.show_preview_metadata ==> text::holds(all, "\nPreview metadata: "@ + "no"@)
            &&& p.rich_image_previews ==> text::holds(all, "\nRich previews: "@ + "yes"@)
            &&& !p.rich_image_previews ==> text::holds(all, "\nRich previews: "@ + "no"@)
            &&& p.category_file_buttons ==> text::holds(all, "\nCategory file buttons: "@ + "yes"@)
            &&& !p.category_file_buttons ==> text::holds(all, "\nCategory file buttons: "@ + "no"@)
            &&& p.pagination_enabled ==> text::holds(all, "\nPagination: "@ + "yes"@)
            &&& !p.pagination_enabled ==> text::holds(all, "\nPagination: "@ + "no"@)
            &&& p.show_sha1 ==> text::holds(all, "\nSHA-1: "@ + "yes"@)
            &&& !p.show_sha1 ==> text::holds(all, "\nSHA-1: "@ + "no"@)
            &&& p.show_file_size ==> text::holds(all, "\nFile size in buttons: "@ + "yes"@)
            &&& !p.show_file_size ==> text::holds(all, "\nFile size in buttons: "@ + "no"@)
            &&& text::holds(all, "\nMode: "@ + p.delivery_mode.pref_word())
            &&& text::holds(all, "\nFile type: "@ + p.file_type.pref_word())
            &&& text::holds(all, "\nFavorites: "@ + text::joined(p.favorite_categories, ", "@))
            &&& text::holds(all, "\nCategory blacklist: "@ + text::joined(p.blacklist_categories, ", "@))
            &&& text::holds(all, "\nUploader blacklist: "@ + text::joined(p.blacklist_uploaders, ", "@))
            &&& p.extension is Some ==> text::holds(all, "\nExtension: "@ + p.extension->0)
            &&& p.extension is None ==> text::holds(all, "\nExtension: "@ + "none"@)
            &&& text::holds(
                all,
                "\nInline results: "@ + numbers::numeral(
                    models::inline_count(p.inline_result_count) as nat,
                ),
            )
        }),
{
    let mode = if stateless {
        "stateless mode, not saved"@
    } else {
        "saved in DynamoDB when configured"@
    };
    let ext = match p.extension {
        Some(e) => e,
        None => "none"@,
    };
    let count = numbers::numeral(models::inline_count(p.inline_result_count) as nat);
    let p0 = "Preferences ("@;
    let p1 = p0 + mode;
    let p2 = p1 + ")\n\nCategory counts: "@;
    let p3 = p2 + settings::yes_or_no(p.show_category_counts);
    let p4 = p3 + "\nMode: "@;
    let p5 = p4 + p.delivery_mode.pref_word();
    let p6 = p5 + "\nFile type: "@;
    let p7 = p6 + p.file_type.pref_word();
    let p8 = p7 + "\nExtension: "@;
    let p9 = p8 + ext;
    let p10 = p9 + "\nPreview metadata: "@;
    let p11 = p10 + settings::yes_or_no(p.show_preview_metadata);
    let p12 = p11 + "\nRich previews: "@;
    let p13 = p12 + settings::yes_or_no(p.rich_image_previews);
    let p14 = p13 + "\nCategory file buttons: "@;
    let p15 = p14 + settings::yes_or_no(p.category_file_buttons);
    let p16 = p15 + "\nPagination: "@;
    let p17 = p16 + settings::yes_or_no(p.pagination_enabled);
    let p18 = p17 + "\nInline results: "@;
    let p19 = p18 + count;
    let p20 = p19 + "\nSHA-1: "@;
    let p21 = p20 + settings::yes_or_no(p.show_sha1);
    let p22 = p21 + "\nFile size in buttons: "@;
    let p23 = p22 + settings::yes_or_no(p.show_file_size);
    let p24 = p23 + "\nFavorites: "@;
    let p25 = p24 + text::joined(p.favorite_categories, ", "@);
    let p26 = p25 + "\nCategory blacklist: "@;
    let p27 = p26 + text::joined(p.blacklist_categories, ", "@);
    let p28 = p27 + "\nUploader blacklist: "@;
    let p29 = p28 + text::joined(p.blacklist_uploaders, ", "@);
    let p30 = p29 + settings::PREFERENCE_COMMANDS@;
    assert(settings::preferences_text(p, stateless) == p30);
    let m1 = "Preferences ("@ + mode;
    lemma_end(Seq::<char>::empty(), p0, mode);
    assert(Seq::<char>::empty() + p0 + mode =~= p1);
    lemma_longer(p1, m1, ")\n\nCategory counts: "@);
    lemma_longer(p2, m1, settings::yes_or_no(p.show_category_counts));
    lemma_longer(p3, m1, "\nMode: "@);
    lemma_longer(p4, m1, p.delivery_mode.pref_word());
    lemma_longer(p5, m1, "\nFile type: "@);
    lemma_longer(p6, m1, p.file_type.pref_word());
    lemma_longer(p7, m1, "\nExtension: "@);
    lemma_longer(p8, m1, ext);
    lemma_longer(p9, m1, "\nPreview metadata: "@);
    lemma_longer(p10, m1, settings::yes_or_no(p.show_preview_metadata));
    lemma_longer(p11, m1, "\nRich previews: "@);
    lemma_longer(p12, m1, settings::yes_or_no(p.rich_image_previews));
    lemma_longer(p13, m1, "\nCategory file buttons: "@);
    lemma_longer(p14, m1, settings::yes_or_no(p.category_file_buttons));
    lemma_longer(p15, m1, "\nPagination: "@);
    lemma_longer(p16, m1, settings::yes_or_no(p.pagination_enabled));
    lemma_longer(p17, m1, "\nInline results: "@);
    lemma_longer(p18, m1, count);
    lemma_longer(p19, m1, "\nSHA-1: "@);
    lemma_longer(p20, m1, settings::yes_or_no(p.show_sha1));
    lemma_longer(p21, m1, "\nFile size in buttons: "@);
    lemma_longer(p22, m1, settings::yes_or_no(p.show_file_size));
    lemma_longer(p23, m1, "\nFavorites: "@);
    lemma_longer(p24, m1, text::joined(p.favorite_categories, ", "@));
    lemma_longer(p25, m1, "\nCategory blacklist: "@);
    lemma_longer(p26, m1, text::joined(p.blacklist_categories, ", "@));
    lemma_longer(p27, m1, "\nUploader blacklist: "@);
    lemma_longer(p28, m1, text::joined(p.blacklist_uploaders, ", "@));
    lemma_longer(p29, m1, settings::PREFERENCE_COMMANDS@);
    let m3 = ")\n\nCategory counts: "@ + settings::yes_or_no(p.show_category_counts);
    lemma_end(p1, ")\n\nCategory counts: "@, settings::yes_or_no(p.show_category_counts));
    lemma_longer(p3, m3, "\nMode: "@);
    lemma_longer(p4, m3, p.delivery_mode.pref_word());
    lemma_longer(p5, m3, "\nFile type: "@);
    lemma_longer(p6, m3, p.file_type.pref_word());
    lemma_longer(p7, m3, "\nExtension: "@);
    lemma_longer(p8, m3, ext);
    lemma_longer(p9, m3, "\nPreview metadata: "@);
    lemma_longer(p10, m3, settings::yes_or_no(p.show_preview_metadata));
    lemma_longer(p11, m3, "\nRich previews: "@);
    lemma_longer(p12, m3, settings::yes_or_no(p.rich_image_previews));
    lemma_longer(p13, m3, "\nCategory file buttons: "@);
    lemma_longer(p14, m3, settings::yes_or_no(p.category_file_buttons));
    lemma_longer(p15, m3, "\nPagination: "@);
    lemma_longer(p16, m3, settings::yes_or_no(p.pagination_enabled));
    lemma_longer(p17, m3, "\nInline results: "@);
    lemma_longer(p18, m3, count);
    lemma_longer(p19, m3, "\nSHA-1: "@);
    lemma_longer(p20, m3, settings::yes_or_no(p.show_sha1));
    lemma_longer(p21, m3, "\nFile size in buttons: "@);
    lemma_longer(p22, m3, settings::yes_or_no(p.show_file_size));
    lemma_longer(p23, m3, "\nFavorites: "@);
    lemma_longer(p24, m3, text::joined(p.favorite_categories, ", "@));
    lemma_longer(p25, m3, "\nCategory blacklist: "@);
    lemma_longer(p26, m3, text::joined(p.blacklist_categories, ", "@));
    lemma_longer(p27, m3, "\nUploader blacklist: "@);
    lemma_longer(p28, m3, text::joined(p.blacklist_uploaders, ", "@));
    lemma_longer(p29, m3, settings::PREFERENCE_COMMANDS@);
    let m5 = "\nMode: "@ + p.delivery_mode.pref_word();
    lemma_end(p3, "\nMode: "@, p.delivery_mode.pref_word());
    lemma_longer(p5, m5, "\nFile type: "@);
    lemma_longer(p6, m5, p.file_type.pref_word());
    lemma_longer(p7, m5, "\nExtension: "@);
    lemma_longer(p8, m5, ext);
    lemma_longer(p9, m5, "\nPreview metadata: "@);
    lemma_longer(p10, m5, settings::yes_or_no(p.show_preview_metadata));
    lemma_longer(p11, m5, "\nRich previews: "@);
    lemma_longer(p12, m5, settings::yes_or_no(p.rich_image_previews));
    lemma_longer(p13, m5, "\nCategory file buttons: "@);
    lemma_longer(p14, m5, settings::yes_or_no(p.category_file_buttons));
    lemma_longer(p15, m5, "\nPagination: "@);
    lemma_longer(p16, m5, settings::yes_or_no(p.pagination_enabled));
    lemma_longer(p17, m5, "\nInline results: "@);
    lemma_longer(p18, m5, count);
    lemma_longer(p19, m5, "\nSHA-1: "@);
    lemma_longer(p20, m5, settings::yes_or_no(p.show_sha1));
    lemma_longer(p21, m5, "\nFile size in buttons: "@);
    lemma_longer(p22, m5, settings::yes_or_no(p.show_file_size));
    lemma_longer(p23, m5, "\nFavorites: "@);
    lemma_longer(p24, m5, text::joined(p.favorite_categories, ", "@));
    lemma_longer(p25, m5, "\nCategory blacklist: "@);
    lemma_longer(p26, m5, text::joined(p.blacklist_categories, ", "@));
    lemma_longer(p27, m5, "\nUploader blacklist: "@);
    lemma_longer(p28, m5, text::joined(p.blacklist_uploaders, ", "@));
    lemma_longer(p29, m5, settings::PREFERENCE_COMMANDS@);
    let m7 = "\nFile type: "@ + p.file_type.pref_word();
    lemma_end(p5, "\nFile type: "@, p.file_type.pref_word());
    lemma_longer(p7, m7, "\nExtension: "@);
    lemma_longer(p8, m7, ext);
    lemma_longer(p9, m7, "\nPreview metadata: "@);
    lemma_longer(p10, m7, settings::yes_or_no(p.show_preview_metadata));
    lemma_longer(p11, m7, "\nRich previews: "@);
    lemma_longer(p12, m7, settings::yes_or_no(p.rich_image_previews));
    lemma_longer(p13, m7, "\nCategory file buttons: "@);
    lemma_longer(p14, m7, settings::yes_or_no(p.category_file_buttons));
    lemma_longer(p15, m7, "\nPagination: "@);
    lemma_longer(p16, m7, settings::yes_or_no(p.pagination_enabled));
    lemma_longer(p17, m7, "\nInline results: "@);
    lemma_longer(p18, m7, count);
    lemma_longer(p19, m7, "\nSHA-1: "@);
    lemma_longer(p20, m7, settings::yes_or_no(p.show_sha1));
    lemma_longer(p21, m7, "\nFile size in buttons: "@);
    lemma_longer(p22, m7, settings::yes_or_no(p.show_file_size));
    lemma_longer(p23, m7, "\nFavorites: "@);
    lemma_longer(p24, m7, text::joined(p.favorite_categories, ", "@));
    lemma_longer(p25, m7, "\nCategory blacklist: "@);
    lemma_longer(p26, m7, text::joined(p.blacklist_categories, ", "@));
    lemma_longer(p27, m7, "\nUploader blacklist: "@);
    lemma_longer(p28, m7, text::joined(p.blacklist_uploaders, ", "@));
    lemma_longer(p29, m7, settings::PREFERENCE_COMMANDS@);
    let m9 = "\nExtension: "@ + ext;
    lemma_end(p7, "\nExtension: "@, ext);
    lemma_longer(p9, m9, "\nPreview metadata: "@);
    lemma_longer(p10, m9, settings::yes_or_no(p.show_preview_metadata));
    lemma_longer(p11, m9, "\nRich previews: "@);
    lemma_longer(p12, m9, settings::yes_or_no(p.rich_image_previews));
    lemma_longer(p13, m9, "\nCategory file buttons: "@);
    lemma_longer(p14, m9, settings::yes_or_no(p.category_file_buttons));
    lemma_longer(p15, m9, "\nPagination: "@);
    lemma_longer(p16, m9, settings::yes_or_no(p.pagination_enabled));
    lemma_longer(p17, m9, "\nInline results: "@);
    lemma_longer(p18, m9, count);
    lemma_longer(p19, m9, "\nSHA-1: "@);
    lemma_longer(p20, m9, settings::yes_or_no(p.show_sha1));
    lemma_longer(p21, m9, "\nFile size in buttons: "@);
    lemma_longer(p22, m9, settings::yes_or_no(p.show_file_size));
    lemma_longer(p23, m9, "\nFavorites: "@);
    lemma_longer(p24, m9, text::joined(p.favorite_categories, ", "@));
    lemma_longer(p25, m9, "\nCategory blacklist: "@);
    lemma_longer(p26, m9, text::joined(p.blacklist_categories, ", "@));
    lemma_longer(p27, m9, "\nUploader blacklist: "@);
    lemma_longer(p28, m9, text::joined(p.blacklist_uploaders, ", "@));
    lemma_longer(p29, m9, settings::PREFERENCE_COMMANDS@);
    let m11 = "\nPreview metadata: "@ + settings::yes_or_no(p.show_preview_metadata);
    lemma_end(p9, "\nPreview metadata: "@, settings::yes_or_no(p.show_preview_metadata));
    lemma_longer(p11, m11, "\nRich previews: "@);
    lemma_longer(p12, m11, settings::yes_or_no(p.rich_image_previews));
    lemma_longer(p13, m11, "\nCategory file buttons: "@);
    lemma_longer(p14, m11, settings::yes_or_no(p.category_file_buttons));
    lemma_longer(p15, m11, "\nPagination: "@);
    lemma_longer(p16, m11, settings::yes_or_no(p.pagination_enabled));
    lemma_longer(p17, m11, "\nInline results: "@);
    lemma_longer(p18, m11, count);
    lemma_longer(p19, m11, "\nSHA-1: "@);
    lemma_longer(p20, m11, settings::yes_or_no(p.show_sha1));
    lemma_longer(p21, m11, "\nFile size in buttons: "@);
    lemma_longer(p22, m11, settings::yes_or_no(p.show_file_size));
    lemma_longer(p23, m11, "\nFavorites: "@);
    lemma_longer(p24, m11, text::joined(p.favorite_categories, ", "@));
    lemma_longer(p25, m11, "\nCategory blacklist: "@);
    lemma_longer(p26, m11, text::joined(p.blacklist_categories, ", "@));
    lemma_longer(p27, m11, "\nUploader blacklist: "@);
    lemma_longer(p28, m11, text::joined(p.blacklist_uploaders, ", "@));
    lemma_longer(p29, m11, settings::PREFERENCE_COMMANDS@);
    let m13 = "\nRich previews: "@ + settings::yes_or_no(p.rich_image_previews);
    lemma_end(p11, "\nRich previews: "@, settings::yes_or_no(p.rich_image_previews));
    lemma_longer(p13, m13, "\nCategory file buttons: "@);
    lemma_longer(p14, m13, settings::yes_or_no(p.category_file_buttons));
    lemma_longer(p15, m13, "\nPagination: "@);
    lemma_longer(p16, m13, settings::yes_or_no(p.pagination_enabled));
    lemma_longer(p17, m13, "\nInline results: "@);
    lemma_longer(p18, m13, count);
    lemma_longer(p19, m13, "\nSHA-1: "@);
    lemma_longer(p20, m13, settings::yes_or_no(p.show_sha1));
    lemma_longer(p21, m13, "\nFile size in buttons: "@);
    lemma_longer(p22, m13, settings::yes_or_no(p.show_file_size));
    lemma_longer(p23, m13, "\nFavorites: "@);
    lemma_longer(p24, m13, text::joined(p.favorite_categories, ", "@));
    lemma_longer(p25, m13, "\nCategory blacklist: "@);
    lemma_longer(p26, m13, text::joined(p.blacklist_categories, ", "@));
    lemma_longer(p27, m13, "\nUploader blacklist: "@);
    lemma_longer(p28, m13, text::joined(p.blacklist_uploaders, ", "@));
    lemma_longer(p29, m13, settings::PREFERENCE_COMMANDS@);
    let m15 = "\nCategory file buttons: "@ + settings::yes_or_no(p.category_file_buttons);
    lemma_end(p13, "\nCategory file buttons: "@, settings::yes_or_no(p.category_file_buttons));
    lemma_longer(p15, m15, "\nPagination: "@);
    lemma_longer(p16, m15, settings::yes_or_no(p.pagination_enabled));
    lemma_longer(p17, m15, "\nInline results: "@);
    lemma_longer(p18, m15, count);
    lemma_longer(p19, m15, "\nSHA-1: "@);
    lemma_longer(p20, m15, settings::yes_or_no(p.show_sha1));
    lemma_longer(p21, m15, "\nFile size in buttons: "@);
    lemma_longer(p22, m15, settings::yes_or_no(p.show_file_size));
    lemma_longer(p23, m15, "\nFavorites: "@);
    lemma_longer(p24, m15, text::joined(p.favorite_categories, ", "@));
    lemma_longer(p25, m15, "\nCategory blacklist: "@);
    lemma_longer(p26, m15, text::joined(p.blacklist_categories, ", "@));
    lemma_longer(p27, m15, "\nUploader blacklist: "@);
    lemma_longer(p28, m15, text::joined(p.blacklist_uploaders, ", "@));
    lemma_longer(p29, m15, settings::PREFERENCE_COMMANDS@);
    let m17 = "\nPagination: "@ + settings::yes_or_no(p.pagination_enabled);
    lemma_end(p15, "\nPagination: "@, settings::yes_or_no(p.pagination_enabled));
    lemma_longer(p17, m17, "\nInline results: "@);
    lemma_longer(p18, m17, count);
    lemma_longer(p19, m17, "\nSHA-1: "@);
    lemma_longer(p20, m17, settings::yes_or_no(p.show_sha1));
    lemma_longer(p21, m17, "\nFile size in buttons: "@);
    lemma_longer(p22, m17, settings::yes_or_no(p.show_file_size));
    lemma_longer(p23, m17, "\nFavorites: "@);
    lemma_longer(p24, m17, text::joined(p.favorite_categories, ", "@));
    lemma_longer(p25, m17, "\nCategory blacklist: "@);
    lemma_longer(p26, m17, text::joined(p.blacklist_categories, ", "@));
    lemma_longer(p27, m17, "\nUploader blacklist: "@);
    lemma_longer(p28, m17, text::joined(p.blacklist_uploaders, ", "@));
    lemma_longer(p29, m17, settings::PREFERENCE_COMMANDS@);
    let m19 = "\nInline results: "@ + count;
    lemma_end(p17, "\nInline results: "@, count);
    lemma_longer(p19, m19, "\nSHA-1: "@);
    lemma_longer(p20, m19, settings::yes_or_no(p.show_sha1));
    lemma_longer(p21, m19, "\nFile size in buttons: "@);
    lemma_longer(p22, m19, settings::yes_or_no(p.show_file_size));
    lemma_longer(p23, m19, "\nFavorites: "@);
    lemma_longer(p24, m19, text::joined(p.favorite_categories, ", "@));
    lemma_longer(p25, m19, "\nCategory blacklist: "@);
    lemma_longer(p26, m19, text::joined(p.blacklist_categories, ", "@));
    lemma_longer(p27, m19, "\nUploader blacklist: "@);
    lemma_longer(p28, m19, text::joined(p.blacklist_uploaders, ", "@));
    lemma_longer(p29, m19, settings::PREFERENCE_COMMANDS@);
    let m21 = "\nSHA-1: "@ + settings::yes_or_no(p.show_sha1);
    lemma_end(p19, "\nSHA-1: "@, settings::yes_or_no(p.show_sha1));
    lemma_longer(p21, m21, "\nFile size in buttons: "@);
    lemma_longer(p22, m21, settings::yes_or_no(p.show_file_size));
    lemma_longer(p23, m21, "\nFavorites: "@);
    lemma_longer(p24, m21, text::joined(p.favorite_categories, ", "@));
    lemma_longer(p25, m21, "\nCategory blacklist: "@);
    lemma_longer(p26, m21, text::joined(p.blacklist_categories, ", "@));
    lemma_longer(p27, m21, "\nUploader blacklist: "@);
    lemma_longer(p28, m21, text::joined(p.blacklist_uploaders, ", "@));
    lemma_longer(p29, m21, settings::PREFERENCE_COMMANDS@);
    let m23 = "\nFile size in buttons: "@ + settings::yes_or_no(p.show_file_size);
    lemma_end(p21, "\nFile size in buttons: "@, settings::yes_or_no(p.show_file_size));
    lemma_longer(p23, m23, "\nFavorites: "@);
    lemma_longer(p24, m23, text::joined(p.favorite_categories, ", "@));
    lemma_longer(p25, m23, "\nCategory blacklist: "@);
    lemma_longer(p26, m23, text::joined(p.blacklist_categories, ", "@));
    lemma_longer(p27, m23, "\nUploader blacklist: "@);
    lemma_longer(p28, m23, text::joined(p.blacklist_uploaders, ", "@));
    lemma_longer(p29, m23, settings::PREFERENCE_COMMANDS@);
    let m25 = "\nFavorites: "@ + text::joined(p.favorite_categories, ", "@);
    lemma_end(p23, "\nFavorites: "@, text::joined(p.favorite_categories, ", "@));
    lemma_longer(p25, m25, "\nCategory blacklist: "@);
    lemma_longer(p26, m25, text::joined(p.blacklist_categories, ", "@));
    lemma_longer(p27, m25, "\nUploader blacklist: "@);
    lemma_longer(p28, m25, text::joined(p.blacklist_uploaders, ", "@));
    lemma_longer(p29, m25, settings::PREFERENCE_COMMANDS@);
    let m27 = "\nCategory blacklist: "@ + text::joined(p.blacklist_categories, ", "@);
    lemma_end(p25, "\nCategory blacklist: "@, text::joined(p.blacklist_categories, ", "@));
    lemma_longer(p27, m27, "\nUploader blacklist: "@);
    lemma_longer(p28, m27, text::joined(p.blacklist_uploaders, ", "@));
    lemma_longer(p29, m27, settings::PREFERENCE_COMMANDS@);
    let m29 = "\nUploader blacklist: "@ + text::joined(p.blacklist_uploaders, ", "@);
    lemma_end(p27, "\nUploader blacklist: "@, text::joined(p.blacklist_uploaders, ", "@));
    lemma_longer(p29, m29, settings::PREFERENCE_COMMANDS@);
}

/// The help names the address of the source twice, as the link and as what is shown, and the
/// favourites of the user where there are any.
pub proof fn law_help(url: Seq<char>, favorites: Seq<Seq<char>>)
    ensures
        ({
            let all = settings::help(url, favorites);
            let plain = settings::HELP_START@ + url + "\">"@ + url + "</a>"@
                + settings::HELP_BODY@;
            &&& favorites.len() == 0 ==> all == plain
            &&& favorites.len() > 0 ==> all == plain + "\nFavorite categories: "@ + text::joined(
                favorites,
                ", "@,
            )
        }),
{
    let plain = settings::HELP_START@ + url + "\">"@ + url + "</a>"@ + settings::HELP_BODY@;
    if favorites.len() == 0 {
        reveal_strlit("");
        assert(plain + ""@ =~= plain);
    } else {
        assert(settings::help(url, favorites) =~= plain + "\nFavorite categories: "@ + text::joined(
            favorites,
            ", "@,
        ));
    }
}

/// The menu of the extensions checks what is chosen: none, or the group of the chosen one.
pub proof fn law_extension_menu(p: models::PreferencesModel)
    ensures
        ({
            let menu = settings::menu_of(p, PreferencesView::ExtensionMenu);
            &&& menu.len() == 5
            &&& choices::checked(
                menu[0][0],
                p.extension is None,
                "All extensions"@,
                "pref:ext:off"@,
            )
            &&& checks_group(menu[1][0], p, ExtensionGroup::Images)
            &&& checks_group(menu[1][1], p, ExtensionGroup::Audio)
            &&& checks_group(menu[2][0], p, ExtensionGroup::Video)
            &&& checks_group(menu[2][1], p, ExtensionGroup::Documents)
            &&& checks_group(menu[3][0], p, ExtensionGroup::Other)
            &&& menu[4][0].callback_data == Some("pref:main"@)
        }),
{
    reveal_strlit("✅ ");
    assert("✅ "@ =~= seq!['✅', ' ']);
}

/// True of the button of a group.
pub open spec fn checks_group(
    b: telegram::ButtonView,
    p: models::PreferencesModel,
    g: ExtensionGroup,
) -> bool {
    choices::checked(
        b,
        p.extension is Some && exists|i: int|
            0 <= i < g.members().len() && (#[trigger] g.members()[i])@ == p.extension->0,
        g.title(),
        "pref:ext:group:"@ + g.word(),
    )
}

/// The button of a group leads to its menu, and changes nothing.
pub proof fn law_group_action(p: models::PreferencesModel, g: ExtensionGroup)
    ensures
        settings::callback_outcome("ext:group:"@ + g.word(), p) == Some(
            (settings::CallbackModel {
                preferences: p,
                view: PreferencesView::ExtensionGroup(g),
                changed: false,
                render: true,
            }),
        ),
{
    settings::law_group_round_trip(g);
    reveal_strlit("images");
    reveal_strlit("audio");
    reveal_strlit("video");
    reveal_strlit("documents");
    reveal_strlit("other");
    reveal_strlit("ext:group:");
    assert(g.word().len() < 10);
    settings::lemma_prefixed("ext:group:"@, g.word(), p);
}

/// The button of a number of inline results sets just that, and tells whether that is new.
pub proof fn law_inline_action(p: models::PreferencesModel, n: usize)
    requires
        n == 10 || n == 20 || n == 50,
    ensures
        ({
            let after = settings::callback_outcome("inline:"@ + numbers::numeral(n as nat), p);
            &&& after is Some
            &&& (after->0).preferences == (models::PreferencesModel { inline_result_count: n, ..p })
            &&& (after->0).changed == (models::inline_count(p.inline_result_count) != n)
        }),
{
    choices::law_odd_counts(n);
    let w = numbers::numeral(n as nat);
    formats::law_numbers_are_read_back(n as nat, usize::MAX as nat, w, 0);
    numbers::law_numeral_round_trip(n as nat);
    reveal_strlit("inline:");
    assert(text::is_digit(w[0]));
    if text::begins(w, "inline:"@) {
        assert(w.take(7)[0] == 'i');
    }
    settings::lemma_prefixed("inline:"@, w, p);
}

} // verus!
