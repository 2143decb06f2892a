//! Laws on what a search asks for and which of the files found it returns.

use vstd::prelude::*;
use crate::commons;
use crate::escaping;
use crate::laws::texts;
use crate::models;
use crate::models::{FileHit, FileType, SizeOp};
use crate::numbers;
use crate::ordering;
use crate::parser;
use crate::text;

verus! {

/// True of a file that the filters of a search let pass.
pub open spec fn passes(
    hit: FileHit,
    q: models::QueryView,
    p: models::PreferencesModel,
    max_file_bytes: u64,
    now: i128,
) -> bool {
    commons::local_filter(q, p, max_file_bytes, now)(hit)
}

/// True of a size within all bounds: below those of the filters for smaller files, above those of
/// the filters for larger ones.
pub open spec fn within_bounds(size: u64, q: models::QueryView) -> bool {
    &&& forall|k: int|
        0 <= k < q.size_filters.len() && (#[trigger] q.size_filters[k]).op == SizeOp::LessThan
            ==> size < q.size_filters[k].bytes
    &&& forall|k: int|
        0 <= k < q.size_filters.len() && (#[trigger] q.size_filters[k]).op == SizeOp::GreaterThan
            ==> q.size_filters[k].bytes < size
}

/// Size filters leave out the files outside their bounds and no others: with them a search lets
/// pass what it does without them and what lies within the bounds.
pub proof fn law_size_filters(
    hit: FileHit,
    q: models::QueryView,
    p: models::PreferencesModel,
    max_file_bytes: u64,
    now: i128,
)
    ensures
        passes(hit, q, p, max_file_bytes, now) <==> within_bounds(hit.size_bytes, q) && passes(
            hit,
            (models::QueryView { size_filters: seq![], ..q }),
            p,
            max_file_bytes,
            now,
        ),
{
    let free = models::QueryView { size_filters: seq![], ..q };
    if passes(hit, q, p, max_file_bytes, now) {
        assert forall|k: int|
            0 <= k < q.size_filters.len() && (#[trigger] q.size_filters[k]).op
                == SizeOp::LessThan implies hit.size_bytes < q.size_filters[k].bytes by {
            assert(commons::size_passes(hit.size_bytes, q.size_filters[k]));
        }
        assert forall|k: int|
            0 <= k < q.size_filters.len() && (#[trigger] q.size_filters[k]).op
                == SizeOp::GreaterThan implies q.size_filters[k].bytes < hit.size_bytes by {
            assert(commons::size_passes(hit.size_bytes, q.size_filters[k]));
        }
    }
    if within_bounds(hit.size_bytes, q) && passes(hit, free, p, max_file_bytes, now) {
        assert forall|k: int| 0 <= k < q.size_filters.len() implies commons::size_passes(
            hit.size_bytes,
            #[trigger] q.size_filters[k],
        ) by {
            match q.size_filters[k].op {
                SizeOp::LessThan => {},
                SizeOp::GreaterThan => {},
            }
        }
    }
}

/// Every file that a search returns is smaller than each bound for smaller files and larger than
/// each bound for larger ones.
pub proof fn law_returned_sizes(
    found: Seq<FileHit>,
    q: models::QueryView,
    p: models::PreferencesModel,
    limit: nat,
    max_file_bytes: u64,
    now: i128,
    by_title: bool,
    i: int,
    k: int,
)
    requires
        0 <= i < commons::search_result(found, q, p, limit, max_file_bytes, now, by_title).len(),
        0 <= k < q.size_filters.len(),
    ensures
        ({
            let hit = commons::search_result(found, q, p, limit, max_file_bytes, now, by_title)[i];
            let bound = q.size_filters[k];
            &&& bound.op == SizeOp::LessThan ==> hit.size_bytes < bound.bytes
            &&& bound.op == SizeOp::GreaterThan ==> hit.size_bytes > bound.bytes
        }),
{
    commons::law_search_results_pass(found, q, p, limit, max_file_bytes, now, by_title);
    let hit = commons::search_result(found, q, p, limit, max_file_bytes, now, by_title)[i];
    law_size_filters(hit, q, p, max_file_bytes, now);
}

/// Unless it is bypassed, the limit on the size leaves out the larger files and no others.
pub proof fn law_size_limit(
    hit: FileHit,
    q: models::QueryView,
    p: models::PreferencesModel,
    max_file_bytes: u64,
    now: i128,
)
    requires
        !q.bypass_telegram_limit,
    ensures
        passes(hit, q, p, max_file_bytes, now) <==> hit.size_bytes <= max_file_bytes && passes(
            hit,
            (models::QueryView { bypass_telegram_limit: true, ..q }),
            p,
            max_file_bytes,
            now,
        ),
{
    lemma_passes(hit, q, p, max_file_bytes, now);
    lemma_passes(
        hit,
        models::QueryView { bypass_telegram_limit: true, ..q },
        p,
        max_file_bytes,
        now,
    );
}

/// A character of a user name: an underscore is a blank, and capital letters are small ones.
pub open spec fn name_char(c: char) -> int {
    if c == '_' {
        ' ' as int
    } else if 'A' <= c <= 'Z' {
        c as int + 32
    } else {
        c as int
    }
}

/// True of two user names that mean the same user.
pub open spec fn same_user(a: Seq<char>, b: Seq<char>) -> bool {
    let s = text::trimmed(a);
    let t = text::trimmed(b);
    s.len() == t.len() && forall|i: int|
        0 <= i < s.len() ==> name_char(#[trigger] s[i]) == name_char(t[i])
}

proof fn lemma_same_user(a: Seq<char>, b: Seq<char>)
    ensures
        (text::lowered(commons::user_name(a)) == text::lowered(commons::user_name(b)))
            == same_user(a, b),
{
    let s = text::trimmed(a);
    let t = text::trimmed(b);
    reveal_strlit(" ");
    assert(" "@ =~= seq![' ']);
    texts::law_replaced_character(s, '_', ' ');
    texts::law_replaced_character(t, '_', ' ');
    let x = text::lowered(commons::user_name(a));
    let y = text::lowered(commons::user_name(b));
    assert(x.len() == s.len() && y.len() == t.len());
    assert forall|i: int| 0 <= i < s.len() implies x[i] as int == name_char(#[trigger] s[i]) by {
        assert(commons::user_name(a)[i] == if s[i] == '_' {
            ' '
        } else {
            s[i]
        });
    }
    assert forall|i: int| 0 <= i < t.len() implies y[i] as int == name_char(#[trigger] t[i]) by {
        assert(commons::user_name(b)[i] == if t[i] == '_' {
            ' '
        } else {
            t[i]
        });
    }
    if same_user(a, b) {
        assert forall|i: int| 0 <= i < x.len() implies x[i] == y[i] by {
            assert(name_char(s[i]) == name_char(t[i]));
        }
        assert(x =~= y);
    } else if x == y {
        assert(s.len() == t.len());
        assert forall|i: int| 0 <= i < s.len() implies name_char(#[trigger] s[i]) == name_char(
            t[i],
        ) by {
            assert(x[i] == y[i]);
        }
    }
}

/// A search for an uploader leaves out the files of others and no more.
pub proof fn law_user_filter(
    hit: FileHit,
    q: models::QueryView,
    p: models::PreferencesModel,
    max_file_bytes: u64,
    now: i128,
)
    requires
        q.user is Some,
    ensures
        passes(hit, q, p, max_file_bytes, now) <==> hit.uploader is Some && same_user(
            (hit.uploader->0)@,
            q.user->0,
        ) && passes(
            hit,
            (models::QueryView { user: None, ..q }),
            p,
            max_file_bytes,
            now,
        ),
{
    let free = models::QueryView { user: None, ..q };
    lemma_passes(hit, q, p, max_file_bytes, now);
    lemma_passes(hit, free, p, max_file_bytes, now);
    if hit.uploader is Some {
        lemma_same_user((hit.uploader->0)@, q.user->0);
    }
}

proof fn lemma_passes(
    hit: FileHit,
    q: models::QueryView,
    p: models::PreferencesModel,
    max_file_bytes: u64,
    now: i128,
)
    ensures
        passes(hit, q, p, max_file_bytes, now) == ({
            &&& commons::size_and_user_pass(hit, q, max_file_bytes)
            &&& q.date is Some ==> hit.timestamp is Some && commons::upload_passes(hit, q, now)
            &&& hit.uploader is Some ==> !commons::on_list(
                p.blacklist_uploaders,
                (hit.uploader->0)@,
            )
            &&& !commons::in_hidden_category(hit, p.blacklist_categories)
            &&& commons::effective_extension(q, p) is Some ==> models::name_extension(
                hit.file_name@,
            ) == Some(text::lowered(commons::effective_extension(q, p)->0))
            &&& sizes_pass(hit.size_bytes, q.size_filters)
            &&& commons::of_family(hit, commons::effective_type(q, p))
        }),
{
    assert(sizes_pass(hit.size_bytes, q.size_filters) == forall|i: int|
        0 <= i < q.size_filters.len() ==> commons::size_passes(
            hit.size_bytes,
            #[trigger] q.size_filters[i],
        ));
}

spec fn sizes_pass(size: u64, filters: Seq<models::SizeFilter>) -> bool {
    forall|i: int| 0 <= i < filters.len() ==> commons::size_passes(size, #[trigger] filters[i])
}

/// True where an upload lies in the time that a date asks for: the year, the day, or the last so
/// many days.
pub open spec fn in_time(m: commons::Moment, f: models::DateView, now: i128) -> bool {
    match f {
        models::DateView::Year(y) => m.year == y,
        models::DateView::Day(d) => match commons::iso_date(d) {
            Some(date) => date.year == m.year && date.month == m.month && date.day == m.day,
            None => false,
        },
        models::DateView::RelativeDays(n) => now - m.nanos <= n * 86_400_000_000_000,
        models::DateView::PreviousMonth => now - m.nanos <= 31 * 86_400_000_000_000,
        models::DateView::PreviousYear => now - m.nanos <= 366 * 86_400_000_000_000,
    }
}

/// A search for a date leaves out the files that were not uploaded then, or not at a time that can
/// be read, and no more.
pub proof fn law_date_filter(
    hit: FileHit,
    q: models::QueryView,
    p: models::PreferencesModel,
    max_file_bytes: u64,
    now: i128,
)
    requires
        q.date is Some,
    ensures
        passes(hit, q, p, max_file_bytes, now) <==> hit.timestamp is Some
            && commons::rfc3339_moment((hit.timestamp->0)@) is Some && in_time(
            commons::rfc3339_moment((hit.timestamp->0)@)->0,
            q.date->0,
            now,
        ) && passes(
            hit,
            (models::QueryView { date: None, ..q }),
            p,
            max_file_bytes,
            now,
        ),
{
    lemma_passes(hit, q, p, max_file_bytes, now);
    lemma_passes(hit, models::QueryView { date: None, ..q }, p, max_file_bytes, now);
    let f = q.date->0;
    assert(commons::DAY_NANOS == 86_400_000_000_000);
    if hit.timestamp is Some && commons::rfc3339_moment((hit.timestamp->0)@) is Some {
        let m = commons::rfc3339_moment((hit.timestamp->0)@)->0;
        assert(commons::upload_passes(hit, q, now) == in_time(m, f, now)) by {
            match f {
                models::DateView::RelativeDays(n) => {
                    assert(commons::days_back(f) * commons::DAY_NANOS == n * 86_400_000_000_000);
                },
                models::DateView::PreviousMonth => {
                    assert(commons::days_back(f) * commons::DAY_NANOS == 31 * 86_400_000_000_000);
                },
                models::DateView::PreviousYear => {
                    assert(commons::days_back(f) * commons::DAY_NANOS == 366 * 86_400_000_000_000);
                },
                models::DateView::Day(d) => {
                    assert(commons::iso_date(d) is Some ==> commons::iso_date(d)->0
                        == (commons::CivilDate {
                        year: (commons::iso_date(d)->0).year,
                        month: (commons::iso_date(d)->0).month,
                        day: (commons::iso_date(d)->0).day,
                    }));
                },
                models::DateView::Year(_) => {},
            }
        }
    }
}

/// True of two texts that differ at most in the case of ASCII letters.
pub open spec fn same_letters(a: Seq<char>, b: Seq<char>) -> bool {
    a.len() == b.len() && forall|i: int|
        0 <= i < a.len() ==> lower_code(#[trigger] a[i]) == lower_code(b[i])
}

/// The code of a character, of a capital letter that of the small one.
pub open spec fn lower_code(c: char) -> int {
    if 'A' <= c <= 'Z' {
        c as int + 32
    } else {
        c as int
    }
}

proof fn lemma_same_letters(a: Seq<char>, b: Seq<char>)
    ensures
        (text::lowered(a) == text::lowered(b)) == same_letters(a, b),
{
    let x = text::lowered(a);
    let y = text::lowered(b);
    assert(x.len() == a.len() && y.len() == b.len());
    if same_letters(a, b) {
        assert forall|i: int| 0 <= i < x.len() implies x[i] == y[i] by {
            assert(lower_code(a[i]) == lower_code(b[i]));
        }
        assert(x =~= y);
    } else if x == y {
        assert(a.len() == b.len());
        assert forall|i: int| 0 <= i < a.len() implies lower_code(#[trigger] a[i]) == lower_code(
            b[i],
        ) by {
            assert(x[i] == y[i]);
        }
    }
}

/// Hidden uploaders: the preferences leave out the files of each of them and no more.
pub proof fn law_hidden_uploaders(
    hit: FileHit,
    q: models::QueryView,
    p: models::PreferencesModel,
    max_file_bytes: u64,
    now: i128,
)
    ensures
        passes(hit, q, p, max_file_bytes, now) <==> (hit.uploader is Some ==> forall|i: int|
            0 <= i < p.blacklist_uploaders.len() ==> !same_letters(
                #[trigger] p.blacklist_uploaders[i],
                (hit.uploader->0)@,
            )) && passes(
            hit,
            q,
            (models::PreferencesModel { blacklist_uploaders: seq![], ..p }),
            max_file_bytes,
            now,
        ),
{
    if hit.uploader is Some {
        let user = (hit.uploader->0)@;
        let list = p.blacklist_uploaders;
        assert forall|i: int| 0 <= i < list.len() implies (text::lowered(#[trigger] list[i])
            == text::lowered(user)) == same_letters(list[i], user) by {
            lemma_same_letters(list[i], user);
        }
        assert(commons::on_list(list, user) <==> exists|i: int|
            0 <= i < list.len() && same_letters(#[trigger] list[i], user)) by {
            if commons::on_list(list, user) {
                let i = choose|i: int|
                    0 <= i < list.len() && text::lowered(#[trigger] list[i]) == text::lowered(user);
                assert(same_letters(list[i], user));
            }
            if exists|i: int| 0 <= i < list.len() && same_letters(#[trigger] list[i], user) {
                let i = choose|i: int|
                    0 <= i < list.len() && same_letters(#[trigger] list[i], user);
                assert(text::lowered(list[i]) == text::lowered(user));
            }
        }
    }
}

/// Hidden categories: the preferences leave out each file that is listed in one of them, and no
/// more. The categories of a file stand between bars.
pub proof fn law_hidden_categories(
    hit: FileHit,
    q: models::QueryView,
    p: models::PreferencesModel,
    max_file_bytes: u64,
    now: i128,
)
    ensures
        passes(hit, q, p, max_file_bytes, now) <==> (hit.categories_text is Some ==> forall|
            i: int,
            j: int,
        |
            0 <= i < p.blacklist_categories.len() && 0 <= j < text::parts(
                (hit.categories_text->0)@,
                '|',
            ).len() ==> !same_letters(
                parser::category_name(#[trigger] p.blacklist_categories[i]),
                parser::category_name(#[trigger] text::parts((hit.categories_text->0)@, '|')[j]),
            )) && passes(
            hit,
            q,
            (models::PreferencesModel { blacklist_categories: seq![], ..p }),
            max_file_bytes,
            now,
        ),
{
    if hit.categories_text is Some {
        let hidden = p.blacklist_categories;
        let listed = text::parts((hit.categories_text->0)@, '|');
        assert forall|i: int, j: int| 0 <= i < hidden.len() && 0 <= j < listed.len() implies (
        text::lowered(parser::category_name(#[trigger] hidden[i])) == text::lowered(
            parser::category_name(#[trigger] listed[j]),
        )) == same_letters(parser::category_name(hidden[i]), parser::category_name(listed[j])) by {
            lemma_same_letters(parser::category_name(hidden[i]), parser::category_name(listed[j]));
        }
        if commons::in_hidden_category(hit, hidden) {
            let j = choose|j: int|
                0 <= j < listed.len() && commons::hides(hidden, #[trigger] listed[j]);
            let i = choose|i: int|
                0 <= i < hidden.len() && text::lowered(parser::category_name(#[trigger] hidden[i]))
                    == text::lowered(parser::category_name(listed[j]));
            assert(same_letters(parser::category_name(hidden[i]), parser::category_name(listed[j])));
        } else {
            assert forall|i: int, j: int|
                0 <= i < hidden.len() && 0 <= j < listed.len() implies !same_letters(
                parser::category_name(#[trigger] hidden[i]),
                parser::category_name(#[trigger] listed[j]),
            ) by {
                assert(!commons::hides(hidden, listed[j]));
            }
        }
        assert(!commons::in_hidden_category(hit, seq![]));
    }
}

/// True of a file whose name ends with a dot and an extension, in any case of its letters.
pub open spec fn has_extension(hit: FileHit, ext: Seq<char>) -> bool {
    exists|stem: Seq<char>, own: Seq<char>|
        hit.file_name@ == #[trigger] (stem + seq!['.'] + own) && !own.contains('.')
            && same_letters(own, ext)
}

proof fn lemma_has_extension(hit: FileHit, ext: Seq<char>)
    ensures
        (models::name_extension(hit.file_name@) == Some(text::lowered(ext))) == has_extension(
            hit,
            ext,
        ),
{
    let name = hit.file_name@;
    if has_extension(hit, ext) {
        let (stem, own) = choose|stem: Seq<char>, own: Seq<char>|
            name == #[trigger] (stem + seq!['.'] + own) && !own.contains('.') && same_letters(
                own,
                ext,
            );
        texts::law_cut_last(stem, '.', own);
        lemma_same_letters(own, ext);
    } else if models::name_extension(name) == Some(text::lowered(ext)) {
        let i = text::last_position(name, '.', name.len() as int);
        lemma_last_dot(name, name.len() as int);
        let stem = name.take(i);
        let own = name.skip(i + 1);
        assert(name =~= stem + seq!['.'] + own);
        assert(!own.contains('.')) by {
            if own.contains('.') {
                let k = choose|k: int| 0 <= k < own.len() && own[k] == '.';
                assert(name[i + 1 + k] == '.');
            }
        }
        lemma_same_letters(own, ext);
    }
}

proof fn lemma_last_dot(s: Seq<char>, to: int)
    requires
        0 <= to <= s.len(),
    ensures
        -1 <= text::last_position(s, '.', to) < to || to == 0 && text::last_position(s, '.', to)
            == -1,
        text::last_position(s, '.', to) >= 0 ==> s[text::last_position(s, '.', to)] == '.',
        forall|k: int| text::last_position(s, '.', to) < k < to ==> s[k] != '.',
    decreases to,
{
    if to > 0 && s[to - 1] != '.' {
        lemma_last_dot(s, to - 1);
    }
}

/// The extension that a search names, or else the preferred one, leaves out the files with another
/// or none, and no more.
pub proof fn law_extension_filter(
    hit: FileHit,
    q: models::QueryView,
    p: models::PreferencesModel,
    max_file_bytes: u64,
    now: i128,
)
    ensures
        ({
            let free = passes(
                hit,
                (models::QueryView { extension: None, ..q }),
                (models::PreferencesModel { extension: None, ..p }),
                max_file_bytes,
                now,
            );
            let passed = passes(hit, q, p, max_file_bytes, now);
            &&& q.extension is Some ==> (passed <==> has_extension(hit, q.extension->0) && free)
            &&& q.extension is None && p.extension is Some ==> (passed <==> has_extension(
                hit,
                p.extension->0,
            ) && free)
            &&& q.extension is None && p.extension is None ==> (passed <==> free)
        }),
{
    lemma_passes(hit, q, p, max_file_bytes, now);
    lemma_passes(
        hit,
        models::QueryView { extension: None, ..q },
        models::PreferencesModel { extension: None, ..p },
        max_file_bytes,
        now,
    );
    if q.extension is Some {
        lemma_has_extension(hit, q.extension->0);
    }
    if p.extension is Some {
        lemma_has_extension(hit, p.extension->0);
    }
}

/// True of a file that is a picture by its extension or its MIME type.
pub open spec fn is_picture(hit: FileHit) -> bool {
    ||| has_extension(hit, "gif"@) || has_extension(hit, "jpeg"@) || has_extension(hit, "jpg"@)
        || has_extension(hit, "png"@) || has_extension(hit, "svg"@) || has_extension(hit, "tif"@)
        || has_extension(hit, "tiff"@) || has_extension(hit, "webp"@) || has_extension(
        hit,
        "xcf"@,
    ) || has_extension(hit, "avif"@) || has_extension(hit, "bmp"@)
    ||| hit.mime is Some && exists|rest: Seq<char>|
        (hit.mime->0)@ == #[trigger] ("image/"@ + rest)
}

/// True of a file that is a sound by its extension, its MIME type or its media type.
pub open spec fn is_sound(hit: FileHit) -> bool {
    ||| has_extension(hit, "flac"@) || has_extension(hit, "mid"@) || has_extension(hit, "midi"@)
        || has_extension(hit, "mp3"@) || has_extension(hit, "oga"@) || has_extension(hit, "ogg"@)
        || has_extension(hit, "opus"@) || has_extension(hit, "wav"@)
    ||| hit.mime is Some && exists|rest: Seq<char>|
        (hit.mime->0)@ == #[trigger] ("audio/"@ + rest)
    ||| hit.media_type is Some && same_letters((hit.media_type->0)@, "audio"@)
}

/// True of a file that is a video by its extension or its MIME type.
pub open spec fn is_film(hit: FileHit) -> bool {
    ||| has_extension(hit, "mpeg"@) || has_extension(hit, "mpg"@) || has_extension(hit, "ogv"@)
        || has_extension(hit, "webm"@) || has_extension(hit, "mp4"@)
    ||| hit.mime is Some && exists|rest: Seq<char>|
        (hit.mime->0)@ == #[trigger] ("video/"@ + rest)
}

/// True of a file of the family that is asked for.
pub open spec fn is_of(hit: FileHit, t: FileType) -> bool {
    match t {
        FileType::All => true,
        FileType::Images => is_picture(hit),
        FileType::Audio => is_sound(hit),
        FileType::Video => is_film(hit),
    }
}

proof fn lemma_begins_split(s: Seq<char>, p: Seq<char>)
    ensures
        text::begins(s, p) <==> exists|rest: Seq<char>| s == #[trigger] (p + rest),
{
    if text::begins(s, p) {
        texts::law_begins_and_finishes(s, p, seq![]);
        assert(s == p + s.skip(p.len() as int));
    }
    if exists|rest: Seq<char>| s == #[trigger] (p + rest) {
        let rest = choose|rest: Seq<char>| s == #[trigger] (p + rest);
        texts::law_begins_and_finishes(s, p, rest);
    }
}

/// An extension in lower case, that of a file.
proof fn lemma_extension_is(hit: FileHit, e: Seq<char>)
    requires
        text::lowered(e) == e,
    ensures
        (models::name_extension(hit.file_name@) == Some(e)) == has_extension(hit, e),
{
    lemma_has_extension(hit, e);
}

proof fn lemma_lower_words()
    ensures
        text::lowered("gif"@) == "gif"@,
        text::lowered("jpeg"@) == "jpeg"@,
        text::lowered("jpg"@) == "jpg"@,
        text::lowered("png"@) == "png"@,
        text::lowered("svg"@) == "svg"@,
        text::lowered("tif"@) == "tif"@,
        text::lowered("tiff"@) == "tiff"@,
        text::lowered("webp"@) == "webp"@,
        text::lowered("xcf"@) == "xcf"@,
        text::lowered("avif"@) == "avif"@,
        text::lowered("bmp"@) == "bmp"@,
{
    reveal_strlit("gif");
    reveal_strlit("jpeg");
    reveal_strlit("jpg");
    reveal_strlit("png");
    reveal_strlit("svg");
    reveal_strlit("tif");
    reveal_strlit("tiff");
    reveal_strlit("webp");
    reveal_strlit("xcf");
    reveal_strlit("avif");
    reveal_strlit("bmp");
    assert(text::lowered("gif"@) =~= "gif"@);
    assert(text::lowered("jpeg"@) =~= "jpeg"@);
    assert(text::lowered("jpg"@) =~= "jpg"@);
    assert(text::lowered("png"@) =~= "png"@);
    assert(text::lowered("svg"@) =~= "svg"@);
    assert(text::lowered("tif"@) =~= "tif"@);
    assert(text::lowered("tiff"@) =~= "tiff"@);
    assert(text::lowered("webp"@) =~= "webp"@);
    assert(text::lowered("xcf"@) =~= "xcf"@);
    assert(text::lowered("avif"@) =~= "avif"@);
    assert(text::lowered("bmp"@) =~= "bmp"@);
}

proof fn lemma_lower_media_words()
    ensures
        text::lowered("flac"@) == "flac"@,
        text::lowered("mid"@) == "mid"@,
        text::lowered("midi"@) == "midi"@,
        text::lowered("mp3"@) == "mp3"@,
        text::lowered("oga"@) == "oga"@,
        text::lowered("ogg"@) == "ogg"@,
        text::lowered("opus"@) == "opus"@,
        text::lowered("wav"@) == "wav"@,
        text::lowered("mpeg"@) == "mpeg"@,
        text::lowered("mpg"@) == "mpg"@,
        text::lowered("ogv"@) == "ogv"@,
        text::lowered("webm"@) == "webm"@,
        text::lowered("mp4"@) == "mp4"@,
        text::lowered("AUDIO"@) == text::lowered("audio"@),
{
    reveal_strlit("flac");
    reveal_strlit("mid");
    reveal_strlit("midi");
    reveal_strlit("mp3");
    reveal_strlit("oga");
    reveal_strlit("ogg");
    reveal_strlit("opus");
    reveal_strlit("wav");
    reveal_strlit("mpeg");
    reveal_strlit("mpg");
    reveal_strlit("ogv");
    reveal_strlit("webm");
    reveal_strlit("mp4");
    reveal_strlit("AUDIO");
    reveal_strlit("audio");
    assert(text::lowered("flac"@) =~= "flac"@);
    assert(text::lowered("mid"@) =~= "mid"@);
    assert(text::lowered("midi"@) =~= "midi"@);
    assert(text::lowered("mp3"@) =~= "mp3"@);
    assert(text::lowered("oga"@) =~= "oga"@);
    assert(text::lowered("ogg"@) =~= "ogg"@);
    assert(text::lowered("opus"@) =~= "opus"@);
    assert(text::lowered("wav"@) =~= "wav"@);
    assert(text::lowered("mpeg"@) =~= "mpeg"@);
    assert(text::lowered("mpg"@) =~= "mpg"@);
    assert(text::lowered("ogv"@) =~= "ogv"@);
    assert(text::lowered("webm"@) =~= "webm"@);
    assert(text::lowered("mp4"@) =~= "mp4"@);
    assert(text::lowered("AUDIO"@) =~= text::lowered("audio"@));
}

proof fn lemma_among_images(e: Seq<char>)
    ensures
        text::among(models::COMMONS_IMAGE_EXTENSIONS@, e) <==> e == "gif"@ || e == "jpeg"@ || e
            == "jpg"@ || e == "png"@ || e == "svg"@ || e == "tif"@ || e == "tiff"@ || e == "webp"@
            || e == "xcf"@,
{
    let list = models::COMMONS_IMAGE_EXTENSIONS@;
    assert(list[0]@ == "gif"@ && list[1]@ == "jpeg"@ && list[2]@ == "jpg"@);
    assert(list[3]@ == "png"@ && list[4]@ == "svg"@ && list[5]@ == "tif"@);
    assert(list[6]@ == "tiff"@ && list[7]@ == "webp"@ && list[8]@ == "xcf"@);
}

proof fn lemma_among_sounds(e: Seq<char>)
    ensures
        text::among(models::COMMONS_AUDIO_EXTENSIONS@, e) <==> e == "flac"@ || e == "mid"@ || e
            == "midi"@ || e == "mp3"@ || e == "oga"@ || e == "ogg"@ || e == "opus"@ || e == "wav"@,
{
    let list = models::COMMONS_AUDIO_EXTENSIONS@;
    assert(list[0]@ == "flac"@ && list[1]@ == "mid"@ && list[2]@ == "midi"@);
    assert(list[3]@ == "mp3"@ && list[4]@ == "oga"@ && list[5]@ == "ogg"@);
    assert(list[6]@ == "opus"@ && list[7]@ == "wav"@);
}

proof fn lemma_among_films(e: Seq<char>)
    ensures
        text::among(models::COMMONS_VIDEO_EXTENSIONS@, e) <==> e == "mpeg"@ || e == "mpg"@ || e
            == "ogv"@ || e == "webm"@,
{
    let list = models::COMMONS_VIDEO_EXTENSIONS@;
    assert(list[0]@ == "mpeg"@ && list[1]@ == "mpg"@ && list[2]@ == "ogv"@);
    assert(list[3]@ == "webm"@);
}

proof fn lemma_pictures(hit: FileHit)
    ensures
        commons::of_family(hit, FileType::Images) == is_picture(hit),
{
    let ext = models::name_extension(hit.file_name@);
    lemma_lower_words();
    lemma_extension_is(hit, "gif"@);
    lemma_extension_is(hit, "jpeg"@);
    lemma_extension_is(hit, "jpg"@);
    lemma_extension_is(hit, "png"@);
    lemma_extension_is(hit, "svg"@);
    lemma_extension_is(hit, "tif"@);
    lemma_extension_is(hit, "tiff"@);
    lemma_extension_is(hit, "webp"@);
    lemma_extension_is(hit, "xcf"@);
    lemma_extension_is(hit, "avif"@);
    lemma_extension_is(hit, "bmp"@);
    if hit.mime is Some {
        lemma_begins_split((hit.mime->0)@, "image/"@);
    }
    if ext is Some {
        lemma_extension_is_lower(hit);
        lemma_among_images(ext->0);
    }
}

/// The extension of a name is in lower case.
proof fn lemma_extension_is_lower(hit: FileHit)
    requires
        models::name_extension(hit.file_name@) is Some,
    ensures
        ({
            let e = models::name_extension(hit.file_name@)->0;
            text::lowered(e) == e
        }),
{
    match text::cut_last(hit.file_name@, '.') {
        Some((_, own)) => texts::law_lowered_twice(own),
        None => {},
    }
}

proof fn lemma_sounds(hit: FileHit)
    ensures
        commons::of_family(hit, FileType::Audio) == is_sound(hit),
{
    let ext = models::name_extension(hit.file_name@);
    lemma_lower_media_words();
    lemma_extension_is(hit, "flac"@);
    lemma_extension_is(hit, "mid"@);
    lemma_extension_is(hit, "midi"@);
    lemma_extension_is(hit, "mp3"@);
    lemma_extension_is(hit, "oga"@);
    lemma_extension_is(hit, "ogg"@);
    lemma_extension_is(hit, "opus"@);
    lemma_extension_is(hit, "wav"@);
    if hit.mime is Some {
        lemma_begins_split((hit.mime->0)@, "audio/"@);
    }
    if hit.media_type is Some {
        lemma_same_letters((hit.media_type->0)@, "audio"@);
    }
    if ext is Some {
        lemma_extension_is_lower(hit);
        lemma_among_sounds(ext->0);
    }
}

proof fn lemma_films(hit: FileHit)
    ensures
        commons::of_family(hit, FileType::Video) == is_film(hit),
{
    let ext = models::name_extension(hit.file_name@);
    lemma_lower_media_words();
    lemma_extension_is(hit, "mpeg"@);
    lemma_extension_is(hit, "mpg"@);
    lemma_extension_is(hit, "ogv"@);
    lemma_extension_is(hit, "webm"@);
    lemma_extension_is(hit, "mp4"@);
    if hit.mime is Some {
        lemma_begins_split((hit.mime->0)@, "video/"@);
    }
    if ext is Some {
        lemma_extension_is_lower(hit);
        lemma_among_films(ext->0);
    }
}

/// The family that a search names, or else the preferred one, leaves out the files of others, and
/// no more.
pub proof fn law_family_filter(
    hit: FileHit,
    q: models::QueryView,
    p: models::PreferencesModel,
    max_file_bytes: u64,
    now: i128,
)
    ensures
        ({
            let free = passes(
                hit,
                (models::QueryView { file_type: Some(FileType::All), ..q }),
                p,
                max_file_bytes,
                now,
            );
            let passed = passes(hit, q, p, max_file_bytes, now);
            &&& q.file_type is Some ==> (passed <==> is_of(hit, q.file_type->0) && free)
            &&& q.file_type is None ==> (passed <==> is_of(hit, p.file_type) && free)
        }),
{
    lemma_passes(hit, q, p, max_file_bytes, now);
    lemma_passes(
        hit,
        models::QueryView { file_type: Some(FileType::All), ..q },
        p,
        max_file_bytes,
        now,
    );
    lemma_pictures(hit);
    lemma_sounds(hit);
    lemma_films(hit);
}

/// A search that asks for nothing, by a user who hides nothing, lets every file pass.
pub proof fn law_no_filter(
    hit: FileHit,
    q: models::QueryView,
    p: models::PreferencesModel,
    max_file_bytes: u64,
    now: i128,
)
    requires
        q.user is None && q.date is None && q.extension is None && q.size_filters.len() == 0,
        q.file_type is None || q.file_type == Some(FileType::All),
        q.bypass_telegram_limit,
        p.extension is None && p.file_type == FileType::All,
        p.blacklist_uploaders.len() == 0 && p.blacklist_categories.len() == 0,
    ensures
        passes(hit, q, p, max_file_bytes, now),
{
}

/// Filtering keeps the files that pass and their order: of two lists one after the other, first
/// what is kept of the first, and then what is kept of the second; a file alone is kept or not.
pub proof fn law_filter_keeps_order<T>(a: Seq<T>, b: Seq<T>, x: T, p: spec_fn(T) -> bool)
    ensures
        ordering::kept(a + b, p) == ordering::kept(a, p) + ordering::kept(b, p),
        ordering::kept(seq![x], p) == (if p(x) {
            seq![x]
        } else {
            seq![]
        }),
    decreases b.len(),
{
    let none = Seq::<T>::empty();
    assert(seq![x].drop_last() =~= none);
    assert(ordering::kept(none, p) =~= none);
    assert(ordering::kept(seq![x], p) =~= (if p(x) {
        seq![x]
    } else {
        none
    }));
    if b.len() > 0 {
        law_filter_keeps_order(a, b.drop_last(), x, p);
        assert((a + b).drop_last() =~= a + b.drop_last());
        assert(ordering::kept(a + b, p) =~= ordering::kept(a, p) + ordering::kept(b, p));
    } else {
        assert(a + b =~= a);
        assert(ordering::kept(a + b, p) =~= ordering::kept(a, p) + ordering::kept(b, p));
    }
}

/// True of a file whose title or name holds each term, whatever the case of the letters.
pub open spec fn holds_terms(hit: FileHit, terms: Seq<Seq<char>>) -> bool {
    forall|i: int|
        0 <= i < terms.len() && text::lower_text(#[trigger] terms[i]).len() > 0 ==> text::holds(
            text::lower_text(hit.title@ + seq![' '] + hit.file_name@),
            text::lower_text(terms[i]),
        )
}

proof fn lemma_wanted(terms: Seq<Seq<char>>, s: Seq<char>)
    ensures
        commons::holds_all(s, commons::wanted_terms(terms)) <==> forall|i: int|
            0 <= i < terms.len() && text::lower_text(#[trigger] terms[i]).len() > 0
                ==> text::holds(s, text::lower_text(terms[i])),
    decreases terms.len(),
{
    let w = commons::wanted_terms(terms);
    if terms.len() > 0 {
        let before = terms.drop_last();
        lemma_wanted(before, s);
        let last = text::lower_text(terms.last());
        let v = commons::wanted_terms(before);
        if last.len() > 0 {
            assert(w =~= v.push(last));
            assert(w[v.len() as int] == last);
            assert forall|k: int| 0 <= k < v.len() implies w[k] == v[k] by {}
        } else {
            assert(w =~= v);
        }
        assert forall|i: int| 0 <= i < before.len() implies before[i] == terms[i] by {}
        if commons::holds_all(s, w) {
            assert(commons::holds_all(s, v)) by {
                assert forall|k: int| 0 <= k < v.len() implies text::holds(s, #[trigger] v[k]) by {
                    assert(text::holds(s, w[k]));
                }
            }
            assert forall|i: int|
                0 <= i < terms.len() && text::lower_text(
                    #[trigger] terms[i],
                ).len() > 0 implies text::holds(s, text::lower_text(terms[i])) by {
                if i < before.len() {
                    assert(before[i] == terms[i]);
                } else {
                    assert(text::holds(s, w[v.len() as int]));
                }
            }
        }
        if forall|i: int|
            0 <= i < terms.len() && text::lower_text(#[trigger] terms[i]).len() > 0
                ==> text::holds(s, text::lower_text(terms[i])) {
            assert forall|i: int|
                0 <= i < before.len() && text::lower_text(
                    #[trigger] before[i],
                ).len() > 0 implies text::holds(s, text::lower_text(before[i])) by {
                assert(before[i] == terms[i]);
            }
            assert forall|k: int| 0 <= k < w.len() implies text::holds(s, #[trigger] w[k]) by {
                if k < v.len() {
                    assert(text::holds(s, v[k]));
                } else {
                    assert(terms[terms.len() - 1] == terms.last());
                }
            }
        }
    }
}

/// A search by place returns the files that pass and hold each term, and no others; other searches
/// return those that pass.
pub proof fn law_search_returns_what_passes(
    found: Seq<FileHit>,
    q: models::QueryView,
    p: models::PreferencesModel,
    limit: nat,
    max_file_bytes: u64,
    now: i128,
    by_title: bool,
    hit: FileHit,
)
    requires
        limit >= found.len(),
    ensures
        commons::search_result(found, q, p, limit, max_file_bytes, now, by_title).contains(hit)
            <==> found.contains(hit) && passes(hit, q, p, max_file_bytes, now) && (by_title
            ==> holds_terms(hit, q.terms)),
{
    let filter = commons::local_filter(q, p, max_file_bytes, now);
    let titles = commons::title_filter(q.terms);
    let passed = ordering::kept(found, filter);
    let titled = if by_title {
        ordering::kept(passed, titles)
    } else {
        passed
    };
    let sorted = if q.sort_by_size {
        ordering::sorted_by(titled, commons::by_size())
    } else {
        titled
    };
    let r = commons::search_result(found, q, p, limit, max_file_bytes, now, by_title);
    reveal_strlit(" ");
    assert(hit.title@ + " "@ + hit.file_name@ =~= hit.title@ + seq![' '] + hit.file_name@);
    lemma_wanted(q.terms, commons::haystack(hit));
    lemma_kept_members(found, filter, hit);
    lemma_kept_members(passed, titles, hit);
    lemma_kept_length(found, filter);
    lemma_kept_length(passed, titles);
    ordering::law_sorted_by(titled, commons::by_size());
    assert(sorted.len() <= limit) by {
        broadcast use vstd::seq_lib::group_to_multiset_ensures;

        assert(sorted.to_multiset().len() == titled.to_multiset().len());
    }
    assert(r == sorted);
    assert(sorted.contains(hit) <==> titled.contains(hit)) by {
        broadcast use vstd::seq_lib::group_to_multiset_ensures;

        assert(sorted.to_multiset().count(hit) == titled.to_multiset().count(hit));
    }
}

proof fn lemma_kept_length<T>(s: Seq<T>, p: spec_fn(T) -> bool)
    ensures
        ordering::kept(s, p).len() <= s.len(),
    decreases s.len(),
{
    if s.len() > 0 {
        lemma_kept_length(s.drop_last(), p);
    }
}

/// What is kept of a list is what passes of it.
pub proof fn lemma_kept_members<T>(s: Seq<T>, p: spec_fn(T) -> bool, x: T)
    ensures
        ordering::kept(s, p).contains(x) <==> s.contains(x) && p(x),
    decreases s.len(),
{
    if s.len() > 0 {
        let t = s.drop_last();
        lemma_kept_members(t, p, x);
        let k = ordering::kept(t, p);
        assert(s =~= t.push(s.last()));
        assert(s.contains(x) <==> t.contains(x) || x == s.last()) by {
            if s.contains(x) {
                let i = choose|i: int| 0 <= i < s.len() && s[i] == x;
                if i < t.len() {
                    assert(t[i] == x);
                }
            }
            if t.contains(x) {
                let i = choose|i: int| 0 <= i < t.len() && t[i] == x;
                assert(s[i] == x);
            }
            assert(s[s.len() - 1] == s.last());
        }
        if p(s.last()) {
            let m = k.push(s.last());
            assert(m.contains(x) <==> k.contains(x) || x == s.last()) by {
                if m.contains(x) {
                    let i = choose|i: int| 0 <= i < m.len() && m[i] == x;
                    if i < k.len() {
                        assert(k[i] == x);
                    }
                }
                if k.contains(x) {
                    let i = choose|i: int| 0 <= i < k.len() && k[i] == x;
                    assert(m[i] == x);
                }
                assert(m[k.len() as int] == s.last());
            }
        }
    }
}

/// Asking for fewer files gives the first of those that a larger number gives.
pub proof fn law_fewer_results_come_first(
    found: Seq<FileHit>,
    q: models::QueryView,
    p: models::PreferencesModel,
    fewer: nat,
    more: nat,
    max_file_bytes: u64,
    now: i128,
    by_title: bool,
)
    requires
        fewer <= more,
    ensures
        ({
            let few = commons::search_result(found, q, p, fewer, max_file_bytes, now, by_title);
            let many = commons::search_result(found, q, p, more, max_file_bytes, now, by_title);
            &&& few.len() == (if many.len() <= fewer {
                many.len()
            } else {
                fewer
            })
            &&& forall|i: int| 0 <= i < few.len() ==> few[i] == many[i]
        }),
{
}

/// Files that are asked for by size come from the smallest to the largest; of others the order is
/// that in which they were found.
pub proof fn law_results_by_size(
    found: Seq<FileHit>,
    q: models::QueryView,
    p: models::PreferencesModel,
    limit: nat,
    max_file_bytes: u64,
    now: i128,
    by_title: bool,
    i: int,
    j: int,
)
    requires
        0 <= i < j < commons::search_result(
            found,
            q,
            p,
            limit,
            max_file_bytes,
            now,
            by_title,
        ).len(),
    ensures
        ({
            let r = commons::search_result(found, q, p, limit, max_file_bytes, now, by_title);
            q.sort_by_size ==> r[i].size_bytes <= r[j].size_bytes
        }),
        !q.sort_by_size && !by_title && limit >= found.len() ==> commons::search_result(
            found,
            q,
            p,
            limit,
            max_file_bytes,
            now,
            by_title,
        ) == ordering::kept(found, commons::local_filter(q, p, max_file_bytes, now)),
{
    commons::law_search_results_pass(found, q, p, limit, max_file_bytes, now, by_title);
    lemma_kept_length(found, commons::local_filter(q, p, max_file_bytes, now));
    let r = commons::search_result(found, q, p, limit, max_file_bytes, now, by_title);
    if q.sort_by_size {
        assert(commons::by_size()(r[i]) <= commons::by_size()(r[j]));
    }
}

// What a search asks for.

/// Pictures are asked for by their own MIME types.
#[verifier::rlimit(40)]
pub proof fn law_mime_of_pictures(ext: Seq<char>)
    ensures
        same_letters(ext, "jpg"@) ==> commons::mime_of(ext) == Some("image/jpeg"@),
        same_letters(ext, "jpeg"@) ==> commons::mime_of(ext) == Some("image/jpeg"@),
        same_letters(ext, "png"@) ==> commons::mime_of(ext) == Some("image/png"@),
        same_letters(ext, "gif"@) ==> commons::mime_of(ext) == Some("image/gif"@),
        same_letters(ext, "webp"@) ==> commons::mime_of(ext) == Some("image/webp"@),
        same_letters(ext, "avif"@) ==> commons::mime_of(ext) == Some("image/avif"@),
        same_letters(ext, "tif"@) ==> commons::mime_of(ext) == Some("image/tiff"@),
        same_letters(ext, "tiff"@) ==> commons::mime_of(ext) == Some("image/tiff"@),
        same_letters(ext, "bmp"@) ==> commons::mime_of(ext) == Some("image/bmp"@),
        same_letters(ext, "svg"@) ==> commons::mime_of(ext) == Some("image/svg+xml"@),
        same_letters(ext, "xcf"@) ==> commons::mime_of(ext) == Some("image/x-xcf"@),
{
    reveal_strlit("avif");
    reveal_strlit("bmp");
    reveal_strlit("djv");
    reveal_strlit("djvu");
    reveal_strlit("flac");
    reveal_strlit("gif");
    reveal_strlit("jpeg");
    reveal_strlit("jpg");
    reveal_strlit("mid");
    reveal_strlit("midi");
    reveal_strlit("mp3");
    reveal_strlit("mp4");
    reveal_strlit("mpeg");
    reveal_strlit("mpg");
    reveal_strlit("oga");
    reveal_strlit("ogg");
    reveal_strlit("ogv");
    reveal_strlit("opus");
    reveal_strlit("pdf");
    reveal_strlit("png");
    reveal_strlit("stl");
    reveal_strlit("svg");
    reveal_strlit("tif");
    reveal_strlit("tiff");
    reveal_strlit("wav");
    reveal_strlit("webm");
    reveal_strlit("webp");
    reveal_strlit("xcf");
    lemma_same_letters(ext, "jpg"@);
    assert(text::lowered("jpg"@) =~= "jpg"@);
    lemma_same_letters(ext, "jpeg"@);
    assert(text::lowered("jpeg"@) =~= "jpeg"@);
    lemma_same_letters(ext, "png"@);
    assert(text::lowered("png"@) =~= "png"@);
    lemma_same_letters(ext, "gif"@);
    assert(text::lowered("gif"@) =~= "gif"@);
    lemma_same_letters(ext, "webp"@);
    assert(text::lowered("webp"@) =~= "webp"@);
    lemma_same_letters(ext, "avif"@);
    assert(text::lowered("avif"@) =~= "avif"@);
    lemma_same_letters(ext, "tif"@);
    assert(text::lowered("tif"@) =~= "tif"@);
    lemma_same_letters(ext, "tiff"@);
    assert(text::lowered("tiff"@) =~= "tiff"@);
    lemma_same_letters(ext, "bmp"@);
    assert(text::lowered("bmp"@) =~= "bmp"@);
    lemma_same_letters(ext, "svg"@);
    assert(text::lowered("svg"@) =~= "svg"@);
    lemma_same_letters(ext, "xcf"@);
    assert(text::lowered("xcf"@) =~= "xcf"@);
    lemma_words_differ();
}

/// Sounds are asked for by their own MIME types.
#[verifier::rlimit(40)]
pub proof fn law_mime_of_sounds(ext: Seq<char>)
    ensures
        same_letters(ext, "mp3"@) ==> commons::mime_of(ext) == Some("audio/mpeg"@),
        same_letters(ext, "oga"@) ==> commons::mime_of(ext) == Some("audio/ogg"@),
        same_letters(ext, "ogg"@) ==> commons::mime_of(ext) == Some("audio/ogg"@),
        same_letters(ext, "flac"@) ==> commons::mime_of(ext) == Some("audio/flac"@),
        same_letters(ext, "wav"@) ==> commons::mime_of(ext) == Some("audio/wav"@),
        same_letters(ext, "opus"@) ==> commons::mime_of(ext) == Some("audio/opus"@),
        same_letters(ext, "mid"@) ==> commons::mime_of(ext) == Some("audio/midi"@),
        same_letters(ext, "midi"@) ==> commons::mime_of(ext) == Some("audio/midi"@),
{
    reveal_strlit("avif");
    reveal_strlit("bmp");
    reveal_strlit("djv");
    reveal_strlit("djvu");
    reveal_strlit("flac");
    reveal_strlit("gif");
    reveal_strlit("jpeg");
    reveal_strlit("jpg");
    reveal_strlit("mid");
    reveal_strlit("midi");
    reveal_strlit("mp3");
    reveal_strlit("mp4");
    reveal_strlit("mpeg");
    reveal_strlit("mpg");
    reveal_strlit("oga");
    reveal_strlit("ogg");
    reveal_strlit("ogv");
    reveal_strlit("opus");
    reveal_strlit("pdf");
    reveal_strlit("png");
    reveal_strlit("stl");
    reveal_strlit("svg");
    reveal_strlit("tif");
    reveal_strlit("tiff");
    reveal_strlit("wav");
    reveal_strlit("webm");
    reveal_strlit("webp");
    reveal_strlit("xcf");
    lemma_same_letters(ext, "mp3"@);
    assert(text::lowered("mp3"@) =~= "mp3"@);
    lemma_same_letters(ext, "oga"@);
    assert(text::lowered("oga"@) =~= "oga"@);
    lemma_same_letters(ext, "ogg"@);
    assert(text::lowered("ogg"@) =~= "ogg"@);
    lemma_same_letters(ext, "flac"@);
    assert(text::lowered("flac"@) =~= "flac"@);
    lemma_same_letters(ext, "wav"@);
    assert(text::lowered("wav"@) =~= "wav"@);
    lemma_same_letters(ext, "opus"@);
    assert(text::lowered("opus"@) =~= "opus"@);
    lemma_same_letters(ext, "mid"@);
    assert(text::lowered("mid"@) =~= "mid"@);
    lemma_same_letters(ext, "midi"@);
    assert(text::lowered("midi"@) =~= "midi"@);
    lemma_words_differ();
}

/// Videos and documents are asked for by their own MIME types.
#[verifier::rlimit(40)]
pub proof fn law_mime_of_films_and_documents(ext: Seq<char>)
    ensures
        same_letters(ext, "webm"@) ==> commons::mime_of(ext) == Some("video/webm"@),
        same_letters(ext, "ogv"@) ==> commons::mime_of(ext) == Some("video/ogg"@),
        same_letters(ext, "mpeg"@) ==> commons::mime_of(ext) == Some("video/mpeg"@),
        same_letters(ext, "mpg"@) ==> commons::mime_of(ext) == Some("video/mpeg"@),
        same_letters(ext, "mp4"@) ==> commons::mime_of(ext) == Some("video/mp4"@),
        same_letters(ext, "pdf"@) ==> commons::mime_of(ext) == Some("application/pdf"@),
        same_letters(ext, "djvu"@) ==> commons::mime_of(ext) == Some("image/vnd.djvu"@),
        same_letters(ext, "djv"@) ==> commons::mime_of(ext) == Some("image/vnd.djvu"@),
        same_letters(ext, "stl"@) ==> commons::mime_of(ext) == Some("model/stl"@),
{
    reveal_strlit("avif");
    reveal_strlit("bmp");
    reveal_strlit("djv");
    reveal_strlit("djvu");
    reveal_strlit("flac");
    reveal_strlit("gif");
    reveal_strlit("jpeg");
    reveal_strlit("jpg");
    reveal_strlit("mid");
    reveal_strlit("midi");
    reveal_strlit("mp3");
    reveal_strlit("mp4");
    reveal_strlit("mpeg");
    reveal_strlit("mpg");
    reveal_strlit("oga");
    reveal_strlit("ogg");
    reveal_strlit("ogv");
    reveal_strlit("opus");
    reveal_strlit("pdf");
    reveal_strlit("png");
    reveal_strlit("stl");
    reveal_strlit("svg");
    reveal_strlit("tif");
    reveal_strlit("tiff");
    reveal_strlit("wav");
    reveal_strlit("webm");
    reveal_strlit("webp");
    reveal_strlit("xcf");
    lemma_same_letters(ext, "webm"@);
    assert(text::lowered("webm"@) =~= "webm"@);
    lemma_same_letters(ext, "ogv"@);
    assert(text::lowered("ogv"@) =~= "ogv"@);
    lemma_same_letters(ext, "mpeg"@);
    assert(text::lowered("mpeg"@) =~= "mpeg"@);
    lemma_same_letters(ext, "mpg"@);
    assert(text::lowered("mpg"@) =~= "mpg"@);
    lemma_same_letters(ext, "mp4"@);
    assert(text::lowered("mp4"@) =~= "mp4"@);
    lemma_same_letters(ext, "pdf"@);
    assert(text::lowered("pdf"@) =~= "pdf"@);
    lemma_same_letters(ext, "djvu"@);
    assert(text::lowered("djvu"@) =~= "djvu"@);
    lemma_same_letters(ext, "djv"@);
    assert(text::lowered("djv"@) =~= "djv"@);
    lemma_same_letters(ext, "stl"@);
    assert(text::lowered("stl"@) =~= "stl"@);
    lemma_words_differ();
}

/// The words for extensions are told apart by their letters.
#[verifier::rlimit(60)]
proof fn lemma_words_differ()
    ensures
        "jpg"@.len() == 3 && "jpg"@[0] == 'j' && "jpg"@[1] == 'p' && "jpg"@[2] == 'g',
        "jpeg"@.len() == 4 && "jpeg"@[0] == 'j' && "jpeg"@[1] == 'p' && "jpeg"@[2] == 'e' && "jpeg"@[3] == 'g',
        "png"@.len() == 3 && "png"@[0] == 'p' && "png"@[1] == 'n' && "png"@[2] == 'g',
        "gif"@.len() == 3 && "gif"@[0] == 'g' && "gif"@[1] == 'i' && "gif"@[2] == 'f',
        "webp"@.len() == 4 && "webp"@[0] == 'w' && "webp"@[1] == 'e' && "webp"@[2] == 'b' && "webp"@[3] == 'p',
        "avif"@.len() == 4 && "avif"@[0] == 'a' && "avif"@[1] == 'v' && "avif"@[2] == 'i' && "avif"@[3] == 'f',
        "tif"@.len() == 3 && "tif"@[0] == 't' && "tif"@[1] == 'i' && "tif"@[2] == 'f',
        "tiff"@.len() == 4 && "tiff"@[0] == 't' && "tiff"@[1] == 'i' && "tiff"@[2] == 'f' && "tiff"@[3] == 'f',
        "bmp"@.len() == 3 && "bmp"@[0] == 'b' && "bmp"@[1] == 'm' && "bmp"@[2] == 'p',
        "svg"@.len() == 3 && "svg"@[0] == 's' && "svg"@[1] == 'v' && "svg"@[2] == 'g',
        "xcf"@.len() == 3 && "xcf"@[0] == 'x' && "xcf"@[1] == 'c' && "xcf"@[2] == 'f',
        "mp3"@.len() == 3 && "mp3"@[0] == 'm' && "mp3"@[1] == 'p' && "mp3"@[2] == '3',
        "oga"@.len() == 3 && "oga"@[0] == 'o' && "oga"@[1] == 'g' && "oga"@[2] == 'a',
        "ogg"@.len() == 3 && "ogg"@[0] == 'o' && "ogg"@[1] == 'g' && "ogg"@[2] == 'g',
        "flac"@.len() == 4 && "flac"@[0] == 'f' && "flac"@[1] == 'l' && "flac"@[2] == 'a' && "flac"@[3] == 'c',
        "wav"@.len() == 3 && "wav"@[0] == 'w' && "wav"@[1] == 'a' && "wav"@[2] == 'v',
        "opus"@.len() == 4 && "opus"@[0] == 'o' && "opus"@[1] == 'p' && "opus"@[2] == 'u' && "opus"@[3] == 's',
        "mid"@.len() == 3 && "mid"@[0] == 'm' && "mid"@[1] == 'i' && "mid"@[2] == 'd',
        "midi"@.len() == 4 && "midi"@[0] == 'm' && "midi"@[1] == 'i' && "midi"@[2] == 'd' && "midi"@[3] == 'i',
        "webm"@.len() == 4 && "webm"@[0] == 'w' && "webm"@[1] == 'e' && "webm"@[2] == 'b' && "webm"@[3] == 'm',
        "ogv"@.len() == 3 && "ogv"@[0] == 'o' && "ogv"@[1] == 'g' && "ogv"@[2] == 'v',
        "mpeg"@.len() == 4 && "mpeg"@[0] == 'm' && "mpeg"@[1] == 'p' && "mpeg"@[2] == 'e' && "mpeg"@[3] == 'g',
        "mpg"@.len() == 3 && "mpg"@[0] == 'm' && "mpg"@[1] == 'p' && "mpg"@[2] == 'g',
        "mp4"@.len() == 3 && "mp4"@[0] == 'm' && "mp4"@[1] == 'p' && "mp4"@[2] == '4',
        "pdf"@.len() == 3 && "pdf"@[0] == 'p' && "pdf"@[1] == 'd' && "pdf"@[2] == 'f',
        "djvu"@.len() == 4 && "djvu"@[0] == 'd' && "djvu"@[1] == 'j' && "djvu"@[2] == 'v' && "djvu"@[3] == 'u',
        "djv"@.len() == 3 && "djv"@[0] == 'd' && "djv"@[1] == 'j' && "djv"@[2] == 'v',
        "stl"@.len() == 3 && "stl"@[0] == 's' && "stl"@[1] == 't' && "stl"@[2] == 'l',
{
    reveal_strlit("jpg");
    reveal_strlit("jpeg");
    reveal_strlit("png");
    reveal_strlit("gif");
    reveal_strlit("webp");
    reveal_strlit("avif");
    reveal_strlit("tif");
    reveal_strlit("tiff");
    reveal_strlit("bmp");
    reveal_strlit("svg");
    reveal_strlit("xcf");
    reveal_strlit("mp3");
    reveal_strlit("oga");
    reveal_strlit("ogg");
    reveal_strlit("flac");
    reveal_strlit("wav");
    reveal_strlit("opus");
    reveal_strlit("mid");
    reveal_strlit("midi");
    reveal_strlit("webm");
    reveal_strlit("ogv");
    reveal_strlit("mpeg");
    reveal_strlit("mpg");
    reveal_strlit("mp4");
    reveal_strlit("pdf");
    reveal_strlit("djvu");
    reveal_strlit("djv");
    reveal_strlit("stl");
}

/// The first clause of a search is its terms with blanks between them, or a star where there are
/// none.
pub proof fn law_query_terms(
    q: models::QueryView,
    p: models::PreferencesModel,
    max_file_bytes: Option<u64>,
)
    ensures
        commons::search_clauses(q, p, max_file_bytes).len() > 0,
        ({
            let first = commons::search_clauses(q, p, max_file_bytes)[0];
            let terms = text::trimmed(text::joined(q.terms, seq![' ']));
            first == (if terms.len() > 0 {
                terms
            } else {
                seq!['*']
            })
        }),
{
    reveal_strlit(" ");
    reveal_strlit("*");
    assert(" "@ =~= seq![' ']);
    assert("*"@ =~= seq!['*']);
}

/// How many clauses an optional condition makes.
pub open spec fn one_if(b: bool) -> int {
    if b {
        1
    } else {
        0
    }
}

/// The clauses of a search, one for each thing asked for: the family that the search names or else
/// the preferred one, the extension that it names or else the preferred one, the category, each
/// category that is hidden, each bound on the size, and the limit. There are no others.
pub proof fn law_query_clauses(
    q: models::QueryView,
    p: models::PreferencesModel,
    max_file_bytes: Option<u64>,
)
    ensures
        ({
            let clauses = commons::search_clauses(q, p, max_file_bytes);
            let t = if q.file_type is Some {
                q.file_type->0
            } else {
                p.file_type
            };
            let named = q.extension is Some || p.extension is Some;
            let e = if q.extension is Some {
                q.extension->0
            } else {
                p.extension->0
            };
            let a = 1 + one_if(t != FileType::All);
            let b = a + one_if(named);
            let c = b + one_if(q.category is Some);
            let d = c + p.blacklist_categories.len();
            let f = d + q.size_filters.len();
            &&& clauses.len() == f + one_if(max_file_bytes is Some)
            &&& t == FileType::Images ==> clauses[1] == "filetype:bitmap"@
            &&& t == FileType::Audio ==> clauses[1] == "filetype:audio"@
            &&& t == FileType::Video ==> clauses[1] == "filetype:video"@
            &&& named && commons::mime_of(e) is Some ==> clauses[a] == "filemime:\""@
                + commons::mime_of(e)->0 + "\""@
            &&& q.category is Some ==> clauses[b] == "incategory:\""@ + parser::category_name(
                q.category->0,
            ) + "\""@
            &&& forall|i: int|
                0 <= i < p.blacklist_categories.len() ==> #[trigger] clauses[c + i]
                    == "-incategory:\""@ + parser::category_name(p.blacklist_categories[i])
                    + "\""@
            &&& forall|i: int|
                0 <= i < q.size_filters.len() && q.size_filters[i].op == SizeOp::GreaterThan
                    ==> #[trigger] clauses[d + i] == "filesize:>"@ + numbers::numeral(
                    kibibytes(q.size_filters[i].bytes),
                )
            &&& forall|i: int|
                0 <= i < q.size_filters.len() && q.size_filters[i].op == SizeOp::LessThan
                    ==> #[trigger] clauses[d + i] == "filesize:<"@ + numbers::numeral(
                    kibibytes(q.size_filters[i].bytes),
                )
            &&& max_file_bytes is Some ==> clauses[f] == "filesize:<"@ + numbers::numeral(
                kibibytes(max_file_bytes->0),
            )
        }),
{
    reveal_strlit("filetype:");
    reveal_strlit("bitmap");
    reveal_strlit("audio");
    reveal_strlit("video");
    reveal_strlit("filetype:bitmap");
    reveal_strlit("filetype:audio");
    reveal_strlit("filetype:video");
    assert("filetype:"@ + "bitmap"@ =~= "filetype:bitmap"@);
    assert("filetype:"@ + "audio"@ =~= "filetype:audio"@);
    assert("filetype:"@ + "video"@ =~= "filetype:video"@);
}

/// An extension without a known MIME type is looked for in the titles, behind a point.
pub proof fn law_query_for_unknown_extension(
    q: models::QueryView,
    p: models::PreferencesModel,
    max_file_bytes: Option<u64>,
)
    ensures
        ({
            let clauses = commons::search_clauses(q, p, max_file_bytes);
            let e = if q.extension is Some {
                q.extension->0
            } else {
                p.extension->0
            };
            (q.extension is Some || p.extension is Some) && commons::mime_of(e) is None
                ==> clauses.contains(
                seq!['i', 'n', 't', 'i', 't', 'l', 'e', ':', '/', '\\', '.']
                    + escaping::regex_literal(e) + seq!['/'],
            )
        }),
{
    let clauses = commons::search_clauses(q, p, max_file_bytes);
    let e = if q.extension is Some {
        q.extension->0
    } else {
        p.extension->0
    };
    if (q.extension is Some || p.extension is Some) && commons::mime_of(e) is None {
        reveal_strlit("intitle:/");
        reveal_strlit("/");
        reveal_strlit(".");
        let f = escaping::regex_char();
        let dot = seq!['.'];
        assert("."@ =~= dot);
        texts::law_expanded(dot, e, '.', f);
        let front = seq!['i', 'n', 't', 'i', 't', 'l', 'e', ':', '/', '\\', '.'];
        let back = escaping::regex_literal(e);
        assert("intitle:/"@ + seq!['\\', '.'] =~= front);
        assert("/"@ =~= seq!['/']);
        let clause = commons::extension_clause(e);
        assert(escaping::regex_literal("."@ + e) == seq!['\\', '.'] + back);
        assert("intitle:/"@ + (seq!['\\', '.'] + back) =~= front + back);
        assert(clause == front + back + seq!['/']);
        let t = commons::effective_type(q, p).predicate();
        let k = if t is Some {
            2int
        } else {
            1int
        };
        assert(clauses[k] == clause);
    }
}

/// A number of bytes in whole kibibytes, but at least one.
pub open spec fn kibibytes(bytes: u64) -> nat {
    if bytes < 2048 {
        1
    } else {
        (bytes / 1024) as nat
    }
}

/// The canonical name of a user is that of a user page among the titles. One that differs from the
/// name asked for at most in its spelling comes before all others, and else the first is taken; a
/// name is missed only where no title is that of a user page.
pub proof fn law_canonical_user(wanted: Seq<char>, titles: Seq<Seq<char>>, i: int)
    requires
        0 <= i < titles.len(),
        text::begins(titles[i], "User:"@),
        !titles[i].skip(5).contains('/'),
    ensures
        ({
            let name = titles[i].skip(5);
            &&& commons::first_user(titles) is Some
            &&& (forall|k: int|
                0 <= k < i ==> !text::begins(#[trigger] titles[k], "User:"@)) ==> commons::first_user(
                titles,
            ) == Some(name)
            &&& commons::user_key(name) == wanted ==> commons::matching_user(wanted, titles) is Some
            &&& commons::matching_user(wanted, titles) is Some ==> commons::user_key(
                commons::matching_user(wanted, titles)->0,
            ) == wanted
        }),
    decreases titles.len(),
{
    reveal_strlit("User:");
    lemma_matching_user(wanted, titles);
    if i > 0 {
        assert(titles.skip(1)[i - 1] == titles[i]);
        law_canonical_user(wanted, titles.skip(1), i - 1);
        if forall|k: int| 0 <= k < i ==> !text::begins(#[trigger] titles[k], "User:"@) {
            assert(!text::begins(titles[0], "User:"@));
            assert forall|k: int| 0 <= k < i - 1 implies !text::begins(
                #[trigger] titles.skip(1)[k],
                "User:"@,
            ) by {
                assert(titles.skip(1)[k] == titles[k + 1]);
            }
        }
    }
}

proof fn lemma_matching_user(wanted: Seq<char>, titles: Seq<Seq<char>>)
    ensures
        commons::matching_user(wanted, titles) is Some ==> commons::user_key(
            commons::matching_user(wanted, titles)->0,
        ) == wanted,
    decreases titles.len(),
{
    if titles.len() > 0 {
        lemma_matching_user(wanted, titles.skip(1));
    }
}

/// Titles outside the pages of users, and the subpages among them, name no user.
pub proof fn law_no_user_page(wanted: Seq<char>, t: Seq<char>, rest: Seq<Seq<char>>)
    requires
        !text::begins(t, "User:"@) || t.skip(5).contains('/'),
    ensures
        commons::first_user(seq![t] + rest) == commons::first_user(rest),
        commons::matching_user(wanted, seq![t] + rest) == commons::matching_user(wanted, rest),
        commons::first_user(seq![]) is None,
        commons::matching_user(wanted, seq![]) is None,
{
    reveal_strlit("User:");
    let all = seq![t] + rest;
    assert(all[0] == t);
    assert(all.skip(1) =~= rest);
}

} // verus!
