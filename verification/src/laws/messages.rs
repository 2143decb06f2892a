//! Laws on the messages that the bot sends: how results are delivered, what a file is shown as, and
//! which buttons stand under a list.

use vstd::prelude::*;
use crate::escaping;
use crate::laws::texts;
use crate::models;
use crate::models::{CategoryHit, CategoryInfo, DeliveryMode, FileHit};
use crate::numbers;
use crate::pagination;
use crate::rounding;
use crate::telegram;
use crate::telegram::{Delivery, OriginalDelivery};
use crate::text;

verus! {

// Delivery.

/// A search without flags is delivered as the saved mode says: as links, as at most ten or twenty
/// previews, or as buttons, each exactly for its own mode. So two modes never give the same.
pub proof fn law_saved_mode_decides(p: models::PreferencesModel, q: models::PreferencesModel)
    ensures
        telegram::delivery_of(p, false, false) == Delivery::Links <==> p.delivery_mode
            == DeliveryMode::Links10,
        telegram::delivery_of(p, false, false) == Delivery::Previews(10) <==> p.delivery_mode
            == DeliveryMode::Images10,
        telegram::delivery_of(p, false, false) == Delivery::Previews(20) <==> p.delivery_mode
            == DeliveryMode::Images20,
        telegram::delivery_of(p, false, false) == Delivery::Buttons <==> p.delivery_mode
            == DeliveryMode::Buttons,
        telegram::delivery_of(p, false, false) == telegram::delivery_of(q, false, false)
            <==> p.delivery_mode == q.delivery_mode,
{
}

/// The flag for links gives links whatever else is asked for. The flag for pictures gives at most
/// ten previews, unless links are the saved mode.
pub proof fn law_flags_decide(p: models::PreferencesModel, pictures: bool)
    ensures
        telegram::delivery_of(p, true, pictures) == Delivery::Links,
        p.delivery_mode != DeliveryMode::Links10 ==> telegram::delivery_of(p, false, true)
            == Delivery::Previews(10),
        p.delivery_mode == DeliveryMode::Links10 ==> telegram::delivery_of(p, false, true)
            == Delivery::Links,
{
}

/// An original of up to twenty megabytes is sent by its address, and a larger one is uploaded.
pub proof fn law_large_originals_are_uploaded(file: FileHit)
    ensures
        file.size_bytes <= 20 * 1024 * 1024 <==> telegram::original_delivery_of(file)
            == OriginalDelivery::ByAddress,
        file.size_bytes > 20 * 1024 * 1024 <==> telegram::original_delivery_of(file)
            == OriginalDelivery::Upload,
{
}

/// A list of links holds the first ten files, each with a link where it has an address, one to a
/// line.
pub proof fn law_plain_files(files: Seq<FileHit>, k: int)
    requires
        0 <= k < files.len(),
        k < 10,
        forall|i: int|
            0 <= i < files.len() ==> (#[trigger] files[i]).description_url is Some,
    ensures
        ({
            let shown = if files.len() > 10 {
                10
            } else {
                files.len() as int
            };
            exists|lines: Seq<Seq<char>>|
                telegram::plain_files(files) == text::joined(lines, "\n"@) && lines.len() == shown
                    && #[trigger] lines[k] == telegram::link(
                    (files[k].description_url->0)@,
                    files[k].file_name@,
                )
        }),
{
    let few = if files.len() > 10 {
        files.take(10)
    } else {
        files
    };
    assert forall|i: int| 0 <= i < few.len() implies (#[trigger] few[i]).description_url is Some by {
        assert(few[i] == files[i]);
    }
    lemma_links(few);
    let lines = telegram::links(few);
    assert(lines[k] == telegram::link((few[k].description_url->0)@, few[k].file_name@));
}

proof fn lemma_links(files: Seq<FileHit>)
    requires
        forall|i: int|
            0 <= i < files.len() ==> (#[trigger] files[i]).description_url is Some,
    ensures
        telegram::links(files).len() == files.len(),
        forall|i: int|
            0 <= i < files.len() ==> #[trigger] telegram::links(files)[i] == telegram::link(
                (files[i].description_url->0)@,
                files[i].file_name@,
            ),
    decreases files.len(),
{
    if files.len() > 0 {
        lemma_links(files.drop_last());
        assert(files.last() == files[files.len() - 1]);
    }
}

// Sizes.

/// True of the number of tenths of a unit that is the nearest to a size.
pub open spec fn nearest_tenths(bytes: nat, unit: nat, t: nat) -> bool {
    2 * (10 * bytes) < (2 * t + 1) * unit && (2 * t - 1) * unit < 2 * (10 * bytes)
}

/// A small size is shown in bytes. A larger one is shown in tenths of the largest unit that it
/// reaches, and these tenths are the nearest to it.
pub proof fn law_sizes_shown(bytes: nat, t: nat)
    requires
        bytes < 0x20_0000_0000_0000,
    ensures
        ({
            let tenths = numbers::numeral(t / 10) + "."@ + numbers::numeral(t % 10);
            let shown = telegram::shown_bytes(bytes);
            &&& bytes < 1024 ==> shown == numbers::numeral(bytes) + " B"@
            &&& 1024 <= bytes && bytes < 1024 * 1024 && nearest_tenths(bytes, 1024, t) ==> shown
                == tenths + " KB"@
            &&& 1024 * 1024 <= bytes && bytes < 1024 * 1024 * 1024 && nearest_tenths(
                bytes,
                1024 * 1024,
                t,
            ) ==> shown == tenths + " MB"@
            &&& 1024 * 1024 * 1024 <= bytes && nearest_tenths(bytes, 1024 * 1024 * 1024, t)
                ==> shown == tenths + " GB"@
        }),
{
    rounding::law_exact_quotients(bytes, 1);
    assert(bytes * 1 == bytes);
    assert(rounding::rounded_count(bytes) == bytes);
    if nearest_tenths(bytes, 1024, t) {
        lemma_nearest(10 * bytes, 1024, t);
    }
    if nearest_tenths(bytes, 1024 * 1024, t) {
        lemma_nearest(10 * bytes, 1024 * 1024, t);
    }
    if nearest_tenths(bytes, 1024 * 1024 * 1024, t) {
        lemma_nearest(10 * bytes, 1024 * 1024 * 1024, t);
    }
}

proof fn lemma_nearest(num: nat, den: nat, t: nat)
    by (nonlinear_arith)
    requires
        den > 0,
        2 * num < (2 * t + 1) * den,
        (2 * t - 1) * den < 2 * num,
    ensures
        rounding::nearest(num, den) == t,
{
    let q = num / den;
    let r = num % den;
    assert(num == q * den + r);
    if 2 * r < den {
        assert(q <= t) by {
            if q >= t + 1 {
                assert(q * den >= (t + 1) * den);
            }
        }
        assert(q >= t) by {
            if q + 1 <= t {
                assert((q + 1) * den <= t * den);
            }
        }
    } else {
        assert(q + 1 <= t) by {
            if q >= t {
                assert(q * den >= t * den);
            }
        }
        assert(q + 1 >= t) by {
            if q + 2 <= t {
                assert((q + 2) * den <= t * den);
            }
        }
    }
}

// Buttons.

/// The button of a file opens that file. It shows the name, and the size where that is asked for,
/// in at most sixty-four characters. A file that is too large for Telegram to fetch is marked, and
/// else a sound is.
pub proof fn law_file_buttons(file: FileHit, p: models::PreferencesModel)
    ensures
        ({
            let b = telegram::file_button(file, p);
            let sized = file.file_name@ + " ("@ + telegram::shown_bytes(file.size_bytes as nat)
                + ")"@;
            &&& b.callback_data == Some("file:"@ + numbers::numeral(file.page_id as nat))
            &&& b.url is None
            &&& b.text.len() <= 64
            &&& !p.show_file_size && file.file_name@.len() <= 64 ==> b.text == file.file_name@
            &&& p.show_file_size && sized.len() <= 64 ==> b.text == sized
            &&& !p.show_file_size && file.file_name@.len() > 64 ==> b.text == file.file_name@.take(
                61,
            ) + seq!['.', '.', '.']
            &&& file.size_bytes > 20 * 1024 * 1024 <==> b.style == Some("danger"@)
            &&& file.size_bytes <= 20 * 1024 * 1024 && file.mime is Some && text::begins(
                (file.mime->0)@,
                "audio/"@,
            ) ==> b.style == Some("primary"@)
            &&& file.size_bytes <= 20 * 1024 * 1024 && file.media_type is None && file.mime is None
                ==> b.style is None
        }),
{
    texts::law_shortened(file.file_name@, 64);
    let sized = file.file_name@ + " ("@ + telegram::shown_bytes(file.size_bytes as nat) + ")"@;
    texts::law_shortened(sized, 64);
    reveal_strlit("danger");
    reveal_strlit("primary");
    assert("danger"@.len() == 6 && "primary"@.len() == 7);
}

/// The button of a category opens that category and shows its title, with the number of its files
/// where it is known.
pub proof fn law_category_buttons(category: CategoryHit)
    ensures
        ({
            let b = telegram::category_button(category);
            &&& b.callback_data == Some("cat:"@ + numbers::numeral(category.page_id as nat))
            &&& b.url is None && b.style is None
            &&& category.file_count is None ==> b.text == category.display_title@
            &&& category.file_count is Some ==> b.text == category.display_title@ + " ("@
                + numbers::numeral(category.file_count->0 as nat) + ")"@
        }),
{
}

/// The buttons of a list stand one to a row, in the order of the list, up to twenty of them.
pub proof fn law_rows_follow_list(
    files: Seq<FileHit>,
    categories: Seq<CategoryHit>,
    p: models::PreferencesModel,
    i: int,
)
    ensures
        telegram::file_rows(files, p).len() == (if files.len() <= 20 {
            files.len() as int
        } else {
            20
        }),
        telegram::category_rows(categories).len() == (if categories.len() <= 20 {
            categories.len() as int
        } else {
            20
        }),
        0 <= i < telegram::file_rows(files, p).len() ==> telegram::file_rows(files, p)[i] == seq![
            telegram::file_button(files[i], p),
        ],
        0 <= i < telegram::category_rows(categories).len() ==> telegram::category_rows(
            categories,
        )[i] == seq![telegram::category_button(categories[i])],
{
}

/// The page buttons: one to the page before unless it is the first, and one to the page after
/// unless it is the last. They name the kind and the token of the list.
pub proof fn law_page_buttons(kind: Seq<char>, token: Seq<char>, page: nat, total: nat)
    requires
        page < total,
    ensures
        ({
            let row = telegram::navigation(kind, token, page, total);
            let before = "pg:"@ + kind + ":"@ + token + ":"@ + numbers::numeral(
                (page - 1) as nat,
            );
            let after = "pg:"@ + kind + ":"@ + token + ":"@ + numbers::numeral(page + 1);
            &&& page > 0 ==> row.len() > 0 && row[0].text == "Prev"@ && row[0].callback_data
                == Some(before)
            &&& page + 1 < total ==> row.len() > 0 && row.last().text == "Next"@
                && row.last().callback_data == Some(after)
            &&& row.len() == (if page > 0 {
                1int
            } else {
                0
            }) + (if page + 1 < total {
                1int
            } else {
                0
            })
        }),
{
}

/// A list on one page has no page buttons, nor has one without a token; another has a last row of
/// them. The rows of the list come first either way.
pub proof fn law_page_row(
    rows: Seq<Seq<telegram::ButtonView>>,
    kind: Seq<char>,
    token: Option<Seq<char>>,
    page: nat,
    total: nat,
)
    ensures
        total <= 1 || token is None ==> telegram::paged_rows(rows, kind, token, page, total)
            == rows,
        total > 1 && token is Some ==> telegram::paged_rows(rows, kind, token, page, total)
            == rows + seq![telegram::navigation(kind, token->0, page, total)],
{
    if total > 1 && token is Some {
        assert(telegram::paged_rows(rows, kind, token, page, total) =~= rows + seq![
            telegram::navigation(kind, token->0, page, total),
        ]);
    }
}

/// A heading tells the page, counted from one, and the number of pages where there are more.
pub proof fn law_headings(title: Seq<char>, page: nat, total: nat)
    ensures
        total <= 1 ==> telegram::heading(title, page, total) == title,
        total > 1 ==> telegram::heading(title, page, total) == title + " "@ + numbers::numeral(
            page + 1,
        ) + "/"@ + numbers::numeral(total),
{
}

/// A list of files begins with its first page; an empty one says so.
pub proof fn law_file_list(
    files: Seq<FileHit>,
    p: models::PreferencesModel,
    token: Option<Seq<char>>,
)
    ensures
        ({
            let reply = telegram::file_list(files, p, token);
            &&& files.len() == 0 ==> reply.text == "No files found."@ && reply.rows is None
            &&& 0 < files.len() <= 20 ==> reply.text == "Files"@ && reply.rows == Some(
                telegram::file_rows(files, p),
            )
            &&& files.len() > 20 && token is Some ==> reply.rows is Some && (
            reply.rows->0).len() == 21 && (reply.rows->0).last()
                == telegram::navigation("f"@, token->0, 0, pagination::pages(files.len()))
            &&& files.len() > 20 ==> reply.text == "Files 1/"@ + numbers::numeral(
                pagination::pages(files.len()),
            )
        }),
{
    reveal_strlit("Files");
    reveal_strlit(" ");
    reveal_strlit("/");
    reveal_strlit("Files 1/");
    let n = files.len();
    if n > 0 && n <= 20 {
        assert(pagination::pages(n) == 1);
    }
    if n > 20 {
        assert(pagination::pages(n) > 1);
        let t = numbers::numeral(pagination::pages(n));
        assert(numbers::numeral(1) =~= seq!['1']);
        assert(telegram::heading("Files"@, 0, pagination::pages(n)) =~= "Files 1/"@ + t);
    }
}

// Files.

/// True where a line stands among the lines of a file.
pub open spec fn tells(file: FileHit, p: models::PreferencesModel, line: Seq<char>) -> bool {
    telegram::metadata_lines(file, p).contains(line)
}

proof fn lemma_in_front(a: Seq<Seq<char>>, b: Seq<Seq<char>>, s: Seq<char>)
    requires
        a.contains(s),
    ensures
        (a + b).contains(s),
{
    let i = choose|i: int| 0 <= i < a.len() && a[i] == s;
    assert((a + b)[i] == s);
}

proof fn lemma_behind(a: Seq<Seq<char>>, b: Seq<Seq<char>>, s: Seq<char>)
    requires
        b.contains(s),
    ensures
        (a + b).contains(s),
{
    let i = choose|i: int| 0 <= i < b.len() && b[i] == s;
    assert((a + b)[a.len() + i] == s);
}

/// The leading lines are among the lines of a file.
proof fn lemma_leading(file: FileHit, p: models::PreferencesModel, s: Seq<char>)
    requires
        telegram::leading_lines(file, false).contains(s),
    ensures
        tells(file, p, s),
{
    let a = telegram::leading_lines(file, false);
    let l1 = telegram::line(telegram::animated_line(file));
    let l2 = telegram::line(telegram::duration_line(file));
    let l3 = telegram::line(telegram::place_line(file));
    let l4 = telegram::line(telegram::versions_line(file));
    let l5 = telegram::line(telegram::sha1_line(file, p.show_sha1));
    let l6 = telegram::line(telegram::history_line(file));
    lemma_in_front(a, l1, s);
    lemma_in_front(a + l1, l2, s);
    lemma_in_front(a + l1 + l2, l3, s);
    lemma_in_front(a + l1 + l2 + l3, l4, s);
    lemma_in_front(a + l1 + l2 + l3 + l4, l5, s);
    lemma_in_front(a + l1 + l2 + l3 + l4 + l5, l6, s);
}

spec fn part(file: FileHit, k: int) -> Seq<Seq<char>> {
    if k == 0 {
        seq![telegram::title_line(file, false)]
    } else if k == 1 {
        telegram::line(telegram::license_line(file, false))
    } else if k == 2 {
        telegram::line(telegram::caption_line(file, false))
    } else if k == 3 {
        telegram::line(telegram::description_line(file, false))
    } else if k == 4 {
        telegram::line(telegram::uploader_line(file, false))
    } else if k == 5 {
        telegram::line(telegram::author_line(file, false))
    } else if k == 6 {
        telegram::line(telegram::uploaded_line(file))
    } else if k == 7 {
        telegram::line(telegram::date_line(file, false))
    } else if k == 8 {
        telegram::line(telegram::dimensions_line(file))
    } else if k == 9 {
        telegram::line(telegram::camera_line(file, false))
    } else {
        telegram::exif_lines(file, false)
    }
}

spec fn parts_up_to(file: FileHit, k: int) -> Seq<Seq<char>>
    decreases k,
{
    if k <= 0 {
        part(file, 0)
    } else {
        parts_up_to(file, k - 1) + part(file, k)
    }
}

proof fn lemma_part_up_to(file: FileHit, k: int, n: int, s: Seq<char>)
    requires
        0 <= k <= n,
        part(file, k).contains(s),
    ensures
        parts_up_to(file, n).contains(s),
    decreases n,
{
    if n > 0 {
        if k == n {
            lemma_behind(parts_up_to(file, n - 1), part(file, n), s);
        } else {
            lemma_part_up_to(file, k, n - 1, s);
            lemma_in_front(parts_up_to(file, n - 1), part(file, n), s);
        }
    }
}

proof fn lemma_part(file: FileHit, p: models::PreferencesModel, k: int, s: Seq<char>)
    requires
        0 <= k <= 10,
        part(file, k).contains(s),
    ensures
        tells(file, p, s),
{
    lemma_part_up_to(file, k, 10, s);
    reveal_with_fuel(parts_up_to, 11);
    assert(parts_up_to(file, 10) == telegram::leading_lines(file, false));
    lemma_leading(file, p, s);
}

proof fn lemma_single(file: FileHit, p: models::PreferencesModel, k: int, s: Seq<char>)
    requires
        0 <= k < 10,
        part(file, k) == seq![s],
    ensures
        tells(file, p, s),
{
    assert(part(file, k)[0] == s);
    lemma_part(file, p, k, s);
}

/// The lines of a file begin with its name, which is a link where the file has a page.
pub proof fn law_file_title(file: FileHit, p: models::PreferencesModel)
    ensures
        telegram::metadata_lines(file, p).len() > 0,
        file.description_url is Some ==> telegram::metadata_lines(file, p)[0] == "<b>"@
            + telegram::link((file.description_url->0)@, file.file_name@) + "</b>"@,
        file.description_url is None ==> telegram::metadata_lines(file, p)[0] == "<b>"@
            + escaping::html_text(file.file_name@) + "</b>"@,
{
}

/// What is known of a file is told, each under its own name: the license, the caption, the
/// description, the uploader, the author, the time of the upload, the date and the size.
pub proof fn law_file_details(file: FileHit, p: models::PreferencesModel)
    ensures
        file.license_short_name is Some && file.license_url is Some ==> tells(
            file,
            p,
            "License: "@ + telegram::link(
                (file.license_url->0)@,
                (file.license_short_name->0)@,
            ),
        ),
        file.license_short_name is Some && file.license_url is None ==> tells(
            file,
            p,
            "License: "@ + escaping::html_text((file.license_short_name->0)@),
        ),
        file.caption_text is Some && (file.caption_text->0)@.len() > 0 ==> tells(
            file,
            p,
            "Caption: "@ + escaping::html_text((file.caption_text->0)@),
        ),
        file.description_text is Some && (file.description_text->0)@.len() > 0
            && file.caption_text is None ==> tells(
            file,
            p,
            "Description: "@ + escaping::html_text((file.description_text->0)@),
        ),
        file.uploader is Some ==> tells(
            file,
            p,
            "Uploader: <a href=\"https://commons.wikimedia.org/wiki/User:"@
                + escaping::percent_encoded((file.uploader->0)@) + "\">"@ + escaping::html_text(
                (file.uploader->0)@,
            ) + "</a>"@,
        ),
        file.artist is Some && file.uploader is None ==> tells(
            file,
            p,
            "Author: "@ + escaping::html_text((file.artist->0)@),
        ),
        file.timestamp is Some ==> tells(
            file,
            p,
            "Uploaded: "@ + escaping::html_text((file.timestamp->0)@),
        ),
        file.date_text is Some ==> tells(
            file,
            p,
            "Date: "@ + escaping::html_text((file.date_text->0)@),
        ),
        file.width is Some && file.height is Some && file.width->0 > 0 && file.height->0 > 0
            && file.mime is Some && text::begins((file.mime->0)@, "image/"@) ==> tells(
            file,
            p,
            "Dimensions: "@ + numbers::numeral(file.width->0 as nat) + " x "@ + numbers::numeral(
                file.height->0 as nat,
            ),
        ),
{
    if telegram::license_line(file, false) is Some {
        lemma_single(file, p, 1, telegram::license_line(file, false)->0);
    }
    if telegram::caption_line(file, false) is Some {
        lemma_single(file, p, 2, telegram::caption_line(file, false)->0);
    }
    if telegram::description_line(file, false) is Some {
        lemma_single(file, p, 3, telegram::description_line(file, false)->0);
    }
    if telegram::uploader_line(file, false) is Some {
        lemma_single(file, p, 4, telegram::uploader_line(file, false)->0);
    }
    if telegram::author_line(file, false) is Some {
        lemma_single(file, p, 5, telegram::author_line(file, false)->0);
    }
    if telegram::uploaded_line(file) is Some {
        lemma_single(file, p, 6, telegram::uploaded_line(file)->0);
    }
    if telegram::date_line(file, false) is Some {
        lemma_single(file, p, 7, telegram::date_line(file, false)->0);
    }
    if telegram::dimensions_line(file) is Some {
        lemma_single(file, p, 8, telegram::dimensions_line(file)->0);
    }
}

/// What a picture was taken with is told, each under its own name.
pub proof fn law_exposure_details(file: FileHit, p: models::PreferencesModel, v: Seq<char>)
    requires
        text::trimmed(v) == v,
        v.len() > 0,
    ensures
        file.camera_model is Some && (file.camera_model->0)@ == v ==> tells(
            file,
            p,
            "Camera model: "@ + telegram::link(
                "https://en.wikipedia.org/wiki/Special:Search?search="@ + escaping::percent_encoded(
                    v,
                ),
                v,
            ),
        ),
        file.f_number is Some && (file.f_number->0)@ == v ==> tells(
            file,
            p,
            telegram::link("https://en.wikipedia.org/wiki/F-number"@, "F-number"@) + ": "@
                + escaping::html_text(v),
        ),
        file.iso_speed is Some && (file.iso_speed->0)@ == v ==> tells(
            file,
            p,
            telegram::link(
                "https://en.wikipedia.org/wiki/Film_speed#Digital_camera_ISO_speed_and_exposure_index"@,
                "ISO speed rating"@,
            ) + ": "@ + escaping::html_text(v),
        ),
        file.focal_length is Some && (file.focal_length->0)@ == v ==> tells(
            file,
            p,
            telegram::link("https://en.wikipedia.org/wiki/Focal_length"@, "Lens focal length"@)
                + ": "@ + escaping::html_text(v),
        ),
        file.exposure_time is Some && (file.exposure_time->0)@ == v ==> tells(
            file,
            p,
            telegram::link("https://en.wikipedia.org/wiki/Shutter_speed"@, "Exposure time"@)
                + ": "@ + escaping::html_text(v),
        ),
{
    if telegram::camera_line(file, false) is Some {
        lemma_single(file, p, 9, telegram::camera_line(file, false)->0);
    }
    let e0 = telegram::exif_line(
        "F-number"@,
        "https://en.wikipedia.org/wiki/F-number"@,
        file.f_number,
        false,
    );
    let e1 = telegram::exif_line(
        "ISO speed rating"@,
        "https://en.wikipedia.org/wiki/Film_speed#Digital_camera_ISO_speed_and_exposure_index"@,
        file.iso_speed,
        false,
    );
    let e2 = telegram::exif_line(
        "Lens focal length"@,
        "https://en.wikipedia.org/wiki/Focal_length"@,
        file.focal_length,
        false,
    );
    let e3 = telegram::exif_line(
        "Exposure time"@,
        "https://en.wikipedia.org/wiki/Shutter_speed"@,
        file.exposure_time,
        false,
    );
    let a = telegram::line(e0);
    let b = telegram::line(e1);
    let c = telegram::line(e2);
    let d = telegram::line(e3);
    assert(part(file, 10) == a + b + c + d);
    if e0 is Some {
        assert(a[0] == e0->0);
        lemma_in_front(a, b, e0->0);
        lemma_in_front(a + b, c, e0->0);
        lemma_in_front(a + b + c, d, e0->0);
        lemma_part(file, p, 10, e0->0);
    }
    if e1 is Some {
        assert(b[0] == e1->0);
        lemma_behind(a, b, e1->0);
        lemma_in_front(a + b, c, e1->0);
        lemma_in_front(a + b + c, d, e1->0);
        lemma_part(file, p, 10, e1->0);
    }
    if e2 is Some {
        assert(c[0] == e2->0);
        lemma_behind(a + b, c, e2->0);
        lemma_in_front(a + b + c, d, e2->0);
        lemma_part(file, p, 10, e2->0);
    }
    if e3 is Some {
        assert(d[0] == e3->0);
        lemma_behind(a + b + c, d, e3->0);
        lemma_part(file, p, 10, e3->0);
    }
}

/// What else is known of a file is told: that it is animated, how long it plays, its place, its
/// versions, its history, and its hash where that is asked for.
pub proof fn law_file_origin(file: FileHit, p: models::PreferencesModel)
    ensures
        file.animated ==> tells(file, p, "Animated: yes"@),
        file.duration_seconds is Some ==> tells(
            file,
            p,
            "Duration: "@ + (file.duration_seconds->0).one_decimal@ + " seconds"@,
        ),
        file.version_count is Some && file.version_count->0 > 1 ==> tells(
            file,
            p,
            numbers::numeral(file.version_count->0 as nat) + " versions were uploaded"@,
        ),
        file.sha1 is Some && p.show_sha1 ==> tells(
            file,
            p,
            "SHA-1: <code>"@ + escaping::html_text((file.sha1->0)@) + "</code>"@,
        ),
{
    let a = telegram::leading_lines(file, false);
    let l1 = telegram::line(telegram::animated_line(file));
    let l2 = telegram::line(telegram::duration_line(file));
    let l3 = telegram::line(telegram::place_line(file));
    let l4 = telegram::line(telegram::versions_line(file));
    let l5 = telegram::line(telegram::sha1_line(file, p.show_sha1));
    let l6 = telegram::line(telegram::history_line(file));
    if file.animated {
        let s = "Animated: yes"@;
        assert(l1[0] == s);
        lemma_behind(a, l1, s);
        lemma_in_front(a + l1, l2, s);
        lemma_in_front(a + l1 + l2, l3, s);
        lemma_in_front(a + l1 + l2 + l3, l4, s);
        lemma_in_front(a + l1 + l2 + l3 + l4, l5, s);
        lemma_in_front(a + l1 + l2 + l3 + l4 + l5, l6, s);
    }
    if telegram::duration_line(file) is Some {
        let s = telegram::duration_line(file)->0;
        assert(l2[0] == s);
        lemma_behind(a + l1, l2, s);
        lemma_in_front(a + l1 + l2, l3, s);
        lemma_in_front(a + l1 + l2 + l3, l4, s);
        lemma_in_front(a + l1 + l2 + l3 + l4, l5, s);
        lemma_in_front(a + l1 + l2 + l3 + l4 + l5, l6, s);
    }
    if telegram::versions_line(file) is Some {
        let s = telegram::versions_line(file)->0;
        assert(l4[0] == s);
        lemma_behind(a + l1 + l2 + l3, l4, s);
        lemma_in_front(a + l1 + l2 + l3 + l4, l5, s);
        lemma_in_front(a + l1 + l2 + l3 + l4 + l5, l6, s);
    }
    if telegram::sha1_line(file, p.show_sha1) is Some {
        let s = telegram::sha1_line(file, p.show_sha1)->0;
        assert(l5[0] == s);
        lemma_behind(a + l1 + l2 + l3 + l4, l5, s);
        lemma_in_front(a + l1 + l2 + l3 + l4 + l5, l6, s);
    }
}

/// The hash is told only where that is asked for: without, a file is told as one without a hash.
pub proof fn law_hash_is_asked_for(file: FileHit, p: models::PreferencesModel)
    requires
        !p.show_sha1,
    ensures
        telegram::sha1_line(file, p.show_sha1) is None,
        file.sha1 is Some ==> telegram::sha1_line(file, true) is Some,
{
}

/// What is not known of a file is not told: a file of which only the name is known has a line for
/// it, and one that leads to its history.
pub proof fn law_nothing_is_made_up(file: FileHit, p: models::PreferencesModel)
    requires
        file.description_url is None && file.license_short_name is None && file.caption_text is None,
        file.description_text is None && file.uploader is None && file.artist is None,
        file.timestamp is None && file.date_text is None && file.width is None,
        file.camera_model is None && file.f_number is None && file.iso_speed is None,
        file.focal_length is None && file.exposure_time is None && !file.animated,
        file.duration_seconds is None && file.coordinates is None && file.version_count is None,
        file.sha1 is None,
        text::trimmed(file.title@).len() > 0,
    ensures
        telegram::metadata_lines(file, p) == seq![
            "<b>"@ + escaping::html_text(file.file_name@) + "</b>"@,
            "<a href=\""@ + escaping::html_attribute(
                "https://commons.wikimedia.org/w/index.php?title="@ + escaping::percent_encoded(
                    file.title@,
                ) + "&action=history"@,
            ) + "\">History</a>"@,
        ],
{
    let none = Seq::<Seq<char>>::empty();
    let title = "<b>"@ + escaping::html_text(file.file_name@) + "</b>"@;
    assert(telegram::exif_lines(file, false) =~= none);
    assert(telegram::leading_lines(file, false) =~= seq![title]);
    let history = telegram::history_line(file)->0;
    assert(telegram::metadata_lines(file, p) =~= seq![title, history]);
}

// Previews.

/// A preview is the thumbnail of a picture, and then its original where Telegram takes that: a JPEG
/// at a secure address, of up to five megabytes, not animated, and neither too large nor too long
/// and thin. What is not a picture has none.
pub proof fn law_previews(file: FileHit)
    ensures
        ({
            let shown = telegram::preview_addresses(file);
            let picture = file.mime is Some && text::begins((file.mime->0)@, "image/"@);
            &&& !picture ==> shown.len() == 0
            &&& picture && file.thumb_url is Some ==> shown.len() > 0 && shown[0] == (
            file.thumb_url->0)@
            &&& picture && shown.len() > 0 && file.thumb_url is None ==> file.url is Some
                && shown[0] == (file.url->0)@
            &&& shown.len() <= 2
            &&& shown.len() == 2 ==> shown[1] == (file.url->0)@
            &&& shown.len() == 2 || shown.len() == 1 && file.thumb_url is None ==> {
                &&& (file.mime->0)@ == "image/jpeg"@
                &&& text::begins((file.url->0)@, "https://"@)
                &&& 0 < file.size_bytes <= 5 * 1024 * 1024
                &&& !file.animated
                &&& file.width is Some && file.height is Some
                &&& file.width->0 > 0 && file.height->0 > 0
                &&& file.width->0 + file.height->0 <= 10_000
                &&& file.width->0 <= 20 * file.height->0
                &&& file.height->0 <= 20 * file.width->0
            }
        }),
{
}

/// A JPEG that Telegram takes has its original as a preview too, unless that is its thumbnail.
pub proof fn law_original_as_preview(file: FileHit)
    requires
        file.mime is Some && (file.mime->0)@ == "image/jpeg"@,
        file.url is Some && text::begins((file.url->0)@, "https://"@),
        0 < file.size_bytes <= 5 * 1024 * 1024,
        !file.animated,
        file.width is Some && file.height is Some,
        file.width->0 > 0 && file.height->0 > 0,
        file.width->0 + file.height->0 <= 10_000,
        file.width->0 <= 20 * file.height->0,
        file.height->0 <= 20 * file.width->0,
    ensures
        telegram::preview_addresses(file).last() == (file.url->0)@,
{
    reveal_strlit("image/jpeg");
    reveal_strlit("image/");
    assert("image/jpeg"@.take(6) =~= "image/"@);
}

/// The files that are shown as previews are the first that have one, in order, and no more than
/// are asked for.
pub proof fn law_files_with_previews(files: Seq<FileHit>, next: FileHit, max: nat)
    ensures
        ({
            let shown = telegram::with_preview(files, max);
            let more = telegram::with_preview(files.push(next), max);
            let seen = telegram::preview_addresses(next).len() > 0;
            &&& shown.len() <= max
            &&& seen && shown.len() < max ==> more == shown.push(next)
            &&& !seen || shown.len() == max ==> more == shown
            &&& files.len() == 0 ==> shown.len() == 0
        }),
{
    assert(files.push(next).drop_last() =~= files);
    lemma_few_previews(files, max);
}

proof fn lemma_few_previews(files: Seq<FileHit>, max: nat)
    ensures
        telegram::with_preview(files, max).len() <= max,
    decreases files.len(),
{
    if files.len() > 0 {
        lemma_few_previews(files.drop_last(), max);
    }
}

// Categories and inline answers.

/// A category is told with its title, and then its description, its item and its claims, as far as
/// they are known.
pub proof fn law_category_text(category: CategoryInfo)
    ensures
        ({
            let title = "<b>"@ + escaping::html_text(category.title@) + "</b>"@;
            let told = telegram::category_text(category);
            &&& category.description is None && category.wikidata_item is None
                && category.wikidata_claims_html is None ==> told == title
            &&& category.description is Some && category.wikidata_item is None
                && category.wikidata_claims_html is None ==> told == title + "\n\n"@
                + escaping::html_text((category.description->0)@)
            &&& category.description is None && category.wikidata_item is None
                && category.wikidata_claims_html is Some ==> told == title + "\n\n"@ + (
            category.wikidata_claims_html->0)@
        }),
{
    let title = "<b>"@ + escaping::html_text(category.title@) + "</b>"@;
    let none = Seq::<Seq<char>>::empty();
    if category.description is None && category.wikidata_item is None
        && category.wikidata_claims_html is None {
        assert(seq![title] + none + none + none =~= seq![title]);
    }
    if category.description is Some && category.wikidata_item is None
        && category.wikidata_claims_html is None {
        let d = escaping::html_text((category.description->0)@);
        assert(seq![title] + seq![d] + none + none =~= seq![title] + seq![d]);
        texts::law_joined_in_order(seq![title], seq![d], "\n\n"@);
    }
    if category.description is None && category.wikidata_item is None
        && category.wikidata_claims_html is Some {
        let d = (category.wikidata_claims_html->0)@;
        assert(seq![title] + none + none + seq![d] =~= seq![title] + seq![d]);
        texts::law_joined_in_order(seq![title], seq![d], "\n\n"@);
    }
}

/// A file in an inline answer has the id of its page, its name, and a link to its page; a picture is
/// shown as its preview. Without a page, and as a picture without a preview, it is left out.
pub proof fn law_inline_results(file: FileHit)
    ensures
        ({
            let shown = telegram::inline_view(file);
            let picture = file.mime is Some && text::begins((file.mime->0)@, "image/"@);
            let link = telegram::link((file.description_url->0)@, file.file_name@);
            let previews = telegram::preview_addresses(file);
            &&& file.description_url is None ==> shown is None
            &&& picture && previews.len() == 0 ==> shown is None
            &&& file.description_url is Some && !picture ==> shown is Some && shown->0 is Article
                && shown->0->Article_id == numbers::numeral(file.page_id as nat)
                && shown->0->Article_title == file.file_name@ && shown->0->message_text == link
            &&& file.description_url is Some && picture && previews.len() > 0 ==> shown is Some
                && shown->0 is Photo && shown->0->Photo_id == numbers::numeral(
                file.page_id as nat,
            ) && shown->0->photo_url == previews[0] && shown->0->Photo_title == file.file_name@
                && shown->0->caption == link
        }),
{
}

/// The description of an inline answer is the caption, or else the description, or else the MIME
/// type, or else the size.
pub proof fn law_inline_descriptions(file: FileHit)
    ensures
        file.caption_text is None && file.description_text is None && file.mime is Some
            ==> telegram::inline_text(file) == (file.mime->0)@,
        file.caption_text is None && file.description_text is None && file.mime is None
            ==> telegram::inline_text(file) == telegram::shown_bytes(file.size_bytes as nat),
        file.caption_text is Some && text::trimmed((file.caption_text->0)@).len() > 0
            ==> telegram::inline_text(file) == text::shortened(
            text::joined(text::words((file.caption_text->0)@), " "@),
            120,
        ),
        file.caption_text is None && file.description_text is Some && text::trimmed(
            (file.description_text->0)@,
        ).len() > 0 ==> telegram::inline_text(file) == text::shortened(
            text::joined(text::words((file.description_text->0)@), " "@),
            120,
        ),
{
}

} // verus!
