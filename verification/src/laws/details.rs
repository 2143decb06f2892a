//! Laws on files and their details, on categories, and on the statistics.

use vstd::prelude::*;
use crate::commons;
use crate::commons::AllImage;
use crate::config::Config;
use crate::escaping;
use crate::laws::texts;
use crate::metadata;
use crate::metadata::{ApiImageInfo, ApiPage, ExifReadings, ExtMetadataEntry, Field, MetadataEntry, Reading};
use crate::models;
use crate::models::{Coordinates, FileHit};
use crate::numbers;
use crate::rounding;
use crate::stats;
use crate::stats::XmlView;
use crate::text;

verus! {

// Texts of the metadata.

/// A tag is left out, and the text around it stays.
pub proof fn law_tags_are_left_out(a: Seq<char>, tag: Seq<char>, b: Seq<char>)
    requires
        !a.contains('<'),
        tag.len() > 0,
        !tag.contains('>'),
    ensures
        metadata::untagged_from(a + seq!['<'] + tag + seq!['>'] + b, 0) == a
            + metadata::untagged_from(b, 0),
        metadata::untagged_from(a, 0) == a,
{
    lemma_tag(a, tag, b, 0);
    assert(a.skip(0) =~= a);
    lemma_no_tag(a, 0);
}

proof fn lemma_tag(a: Seq<char>, tag: Seq<char>, b: Seq<char>, k: int)
    requires
        !a.contains('<'),
        tag.len() > 0,
        !tag.contains('>'),
        0 <= k <= a.len(),
    ensures
        metadata::untagged_from(a + seq!['<'] + tag + seq!['>'] + b, k) == a.skip(k)
            + metadata::untagged_from(b, 0),
    decreases a.len() - k,
{
    let s = a + seq!['<'] + tag + seq!['>'] + b;
    if k < a.len() {
        assert(s[k] == a[k]);
        assert(a.contains(a[k]));
        lemma_tag(a, tag, b, k + 1);
        assert(a.skip(k) + metadata::untagged_from(b, 0) =~= seq![a[k]] + (a.skip(k + 1)
            + metadata::untagged_from(b, 0)));
    } else {
        let e = (a.len() + 1 + tag.len()) as int;
        assert(s[k] == '<');
        assert(s[e] == '>');
        text::lemma_position(s, '>', k + 1);
        let p = text::position(s, '>', k + 1);
        if p < e {
            assert(s[p] == tag[p - k - 1]);
            assert(tag.contains(tag[p - k - 1]));
        }
        assert(p == e);
        lemma_untagged_skip(s, e + 1, e + 1);
        assert(s.skip(e + 1) =~= b);
        assert(a.skip(k) + metadata::untagged_from(b, 0) =~= metadata::untagged_from(b, 0));
    }
}

/// What is left of a text from a position on depends on nothing before it.
proof fn lemma_untagged_skip(s: Seq<char>, from: int, at: int)
    requires
        0 <= from <= at <= s.len(),
    ensures
        metadata::untagged_from(s, at) == metadata::untagged_from(s.skip(from), at - from),
    decreases s.len() - at,
{
    if at < s.len() {
        let t = s.skip(from);
        assert(t[at - from] == s[at]);
        lemma_position_moves(s, '>', from, at + 1);
        text::lemma_position(s, '>', at + 1);
        let e = text::position(s, '>', at + 1);
        if s[at] == '<' && at + 1 < e < s.len() {
            lemma_untagged_skip(s, from, e + 1);
        } else {
            lemma_untagged_skip(s, from, at + 1);
        }
    }
}

proof fn lemma_position_moves(s: Seq<char>, x: char, from: int, at: int)
    requires
        0 <= from <= at <= s.len(),
    ensures
        text::position(s, x, at) == from + text::position(s.skip(from), x, at - from),
    decreases s.len() - at,
{
    if at < s.len() {
        assert(s.skip(from)[at - from] == s[at]);
        if s[at] != x {
            lemma_position_moves(s, x, from, at + 1);
        }
    }
}

proof fn lemma_no_tag(s: Seq<char>, k: int)
    requires
        !s.contains('<'),
        0 <= k <= s.len(),
    ensures
        metadata::untagged_from(s, k) == s.skip(k),
    decreases s.len() - k,
{
    if k < s.len() {
        assert(s.contains(s[k]));
        lemma_no_tag(s, k + 1);
        assert(s.skip(k) =~= seq![s[k]] + s.skip(k + 1));
    } else {
        assert(s.skip(k) =~= Seq::<char>::empty());
    }
}

/// The first value under a name is the one of that name, whatever the case of its letters.
pub proof fn law_entries_by_name(e: MetadataEntry, rest: Seq<MetadataEntry>, name: Seq<char>)
    ensures
        text::lowered(e.name@) == text::lowered(name) ==> metadata::find_entry(
            seq![e] + rest,
            name,
        ) == Some(e.value),
        text::lowered(e.name@) != text::lowered(name) ==> metadata::find_entry(
            seq![e] + rest,
            name,
        ) == metadata::find_entry(rest, name),
        metadata::find_entry(seq![], name) is None,
{
    let all = seq![e] + rest;
    assert(all[0] == e);
    assert(all.skip(1) =~= rest);
}

/// The first value under a name of the extended metadata is the one of that very name; what it
/// holds is taken as text.
pub proof fn law_extended_by_name(
    e: ExtMetadataEntry,
    rest: Seq<ExtMetadataEntry>,
    name: Seq<char>,
)
    ensures
        e.name@ == name && e.value is Some ==> metadata::find_ext(seq![e] + rest, name) == Some(
            metadata::field_text(e.value->0),
        ),
        e.name@ == name && e.value is None ==> metadata::find_ext(seq![e] + rest, name) is None,
        e.name@ != name ==> metadata::find_ext(seq![e] + rest, name) == metadata::find_ext(
            rest,
            name,
        ),
        metadata::find_ext(seq![], name) is None,
{
    let all = seq![e] + rest;
    assert(all[0] == e);
    assert(all.skip(1) =~= rest);
}

/// Values as text.
pub proof fn law_field_texts(f: Field)
    ensures
        f is Text ==> metadata::field_text(f) == (f->Text_0)@,
        f is Number ==> metadata::field_text(f) == (f->Number_0).written@,
        f == Field::Flag(true) ==> metadata::field_text(f) == "true"@,
        f == Field::Flag(false) ==> metadata::field_text(f) == "false"@,
        f is Other ==> metadata::field_text(f) == (f->Other_0)@,
        metadata::entry_text(None) is None,
        f is Other ==> metadata::entry_text(Some(f)) is None,
        f is Number && text::trimmed((f->Number_0).written@).len() > 0 ==> metadata::entry_text(
            Some(f),
        ) == Some(text::trimmed((f->Number_0).written@)),
        f is Number && text::trimmed((f->Number_0).written@).len() == 0 ==> metadata::entry_text(
            Some(f),
        ) is None,
{
}

/// The metadata of the file itself comes before that in the common form.
pub proof fn law_own_metadata_first(
    own: Seq<MetadataEntry>,
    common: Seq<MetadataEntry>,
    name: Seq<char>,
)
    ensures
        ({
            let a = metadata::entry_text(metadata::find_entry(own, name));
            let b = metadata::entry_text(metadata::find_entry(common, name));
            &&& a is Some ==> metadata::first_text(own, common, name) == a
            &&& a is None ==> metadata::first_text(own, common, name) == b
        }),
{
}

/// A place needs both a latitude and a longitude; each has three names, of which the first that
/// holds a number counts.
pub proof fn law_place(list: Seq<MetadataEntry>)
    ensures
        ({
            let lat = metadata::number_named(list, "GPSLatitude"@, "Latitude"@, "lat"@);
            let lon = metadata::number_named(list, "GPSLongitude"@, "Longitude"@, "lon"@);
            &&& lat is Some && lon is Some ==> metadata::place_of(list) == Some(
                Coordinates { lat: lat->0, lon: lon->0 },
            )
            &&& lat is None || lon is None ==> metadata::place_of(list) is None
        }),
        ({
            let a = metadata::entry_number(metadata::find_entry(list, "GPSLatitude"@));
            let b = metadata::entry_number(metadata::find_entry(list, "Latitude"@));
            let c = metadata::entry_number(metadata::find_entry(list, "lat"@));
            let all = metadata::number_named(list, "GPSLatitude"@, "Latitude"@, "lat"@);
            &&& a is Some ==> all == a
            &&& a is None && b is Some ==> all == b
            &&& a is None && b is None ==> all == c
        }),
{
}

/// A picture moves where its metadata says so, or has more than one frame.
pub proof fn law_animated(list: Seq<MetadataEntry>, e: MetadataEntry)
    ensures
        metadata::animated(list.push(e)) == (metadata::animated(list) || metadata::says_animated(e)),
        !metadata::animated(seq![]),
        text::lowered(e.name@) == "animated"@ ==> metadata::says_animated(e) == (e.value
            == Field::Flag(true)),
        text::lowered(e.name@) == "framecount"@ && e.value is Number ==> metadata::says_animated(e)
            == ((e.value->Number_0).whole is Some && (e.value->Number_0).whole->0 >= 2),
        text::lowered(e.name@) != "animated"@ && text::lowered(e.name@) != "framecount"@
            ==> !metadata::says_animated(e),
{
    reveal_strlit("animated");
    reveal_strlit("framecount");
    assert("animated"@.len() == 8 && "framecount"@.len() == 10);
    let all = list.push(e);
    if metadata::animated(all) {
        let i = choose|i: int| 0 <= i < all.len() && metadata::says_animated(#[trigger] all[i]);
        if i < list.len() {
            assert(metadata::says_animated(list[i]));
        }
    }
    if metadata::animated(list) {
        let i = choose|i: int| 0 <= i < list.len() && metadata::says_animated(#[trigger] list[i]);
        assert(metadata::says_animated(all[i]));
    }
    if metadata::says_animated(e) {
        assert(metadata::says_animated(all[list.len() as int]));
    }
}

/// Decimals lose the zeros at their end, and the point where nothing is left behind it; a number
/// without a point stays.
pub proof fn law_short_decimals(a: Seq<char>, b: Seq<char>, n: nat)
    requires
        a.len() > 0 && !a.contains('.'),
        b.len() > 0 && b.last() != '0' && b.last() != '.',
    ensures
        metadata::short_decimals(a + seq!['.'] + b + zeros(n)) == a + seq!['.'] + b,
        metadata::short_decimals(a + seq!['.'] + zeros(n)) == a,
        metadata::short_decimals(a) == a,
{
    let p = text::just('0');
    let s = a + seq!['.'] + b;
    let z = zeros(n);
    assert forall|i: int| 0 <= i < z.len() implies p(#[trigger] z[i]) by {}
    assert(texts::all_in(z, p));
    texts::law_trailing_dropped(s, z, p);
    assert((s + z)[a.len() as int] == '.');
    let t = a + seq!['.'];
    texts::law_trailing_dropped(t, z, p);
    assert((t + z)[a.len() as int] == '.');
    assert(t.drop_last() =~= a);
    assert(a.contains(a.last()));
}

/// Zeros.
pub open spec fn zeros(n: nat) -> Seq<char> {
    Seq::new(n, |i: int| '0')
}

/// Long numbers have a comma before each group of three digits from the end.
pub proof fn law_grouped(a: Seq<char>, t: Seq<char>)
    requires
        t.len() == 3,
    ensures
        a.len() > 0 ==> metadata::grouped(a + t) == metadata::grouped(a) + seq![','] + t,
        a.len() <= 3 ==> metadata::grouped(a) == a,
{
    reveal_strlit(",");
    assert(","@ =~= seq![',']);
    let s = a + t;
    assert(s.take(s.len() - 3) =~= a);
    assert(s.skip(s.len() - 3) =~= t);
}

/// How an exposure time is shown: what has a unit stays; a quotient is shown as it is and as
/// decimals, and a whole number or decimals alone.
pub proof fn law_exposure(t: Seq<char>, d: String)
    requires
        t.len() > 0 && text::trimmed(t) == t,
    ensures
        text::holds(text::lowered(t), "sec"@) ==> metadata::shown_exposure(
            t,
            Reading::Decimal(d),
        ) == Some(t),
        !text::holds(text::lowered(t), "sec"@) ==> {
            let short = metadata::short_decimals(d@);
            &&& metadata::shown_exposure(t, Reading::Quotient(d, true)) == Some(short + " sec"@)
            &&& metadata::shown_exposure(t, Reading::Quotient(d, false)) == Some(
                t + " sec ("@ + short + ")"@,
            )
            &&& metadata::shown_exposure(t, Reading::Decimal(d)) == Some(short + " sec"@)
            &&& metadata::shown_exposure(t, Reading::Unreadable) == Some(t + " sec"@)
        },
{
}

/// How an aperture and a focal length are shown.
pub proof fn law_lens(t: Seq<char>, d: String)
    requires
        t.len() > 0 && text::trimmed(t) == t,
    ensures
        text::begins(text::lowered(t), "f/"@) ==> metadata::shown_f_number(t, Reading::Decimal(d))
            == Some(t),
        !text::begins(text::lowered(t), "f/"@) ==> metadata::shown_f_number(t, Reading::Decimal(d))
            == Some("f/"@ + metadata::short_decimals(d@)) && metadata::shown_f_number(
            t,
            Reading::Quotient(d, false),
        ) == Some("f/"@ + metadata::short_decimals(d@)) && metadata::shown_f_number(
            t,
            Reading::Unreadable,
        ) == Some("f/"@ + t),
        text::holds(text::lowered(t), "mm"@) ==> metadata::shown_focal_length(
            t,
            Reading::Decimal(d),
        ) == Some(t),
        !text::holds(text::lowered(t), "mm"@) ==> metadata::shown_focal_length(
            t,
            Reading::Decimal(d),
        ) == Some(metadata::short_decimals(d@) + " mm"@) && metadata::shown_focal_length(
            t,
            Reading::Unreadable,
        ) == Some(t + " mm"@),
{
}

/// How a film speed is shown, and that blanks are shown as nothing.
pub proof fn law_speed(t: Seq<char>, n: u64, blank: Seq<char>, r: Reading)
    requires
        t.len() > 0 && text::trimmed(t) == t,
        texts::all_in(blank, text::white_class()),
    ensures
        metadata::shown_iso(t, Some(n)) == Some(metadata::grouped(numbers::numeral(n as nat))),
        metadata::shown_iso(t, None) == Some(t),
        metadata::shown_iso(blank, Some(n)) is None,
        metadata::shown_exposure(blank, r) is None,
        metadata::shown_f_number(blank, r) is None,
        metadata::shown_focal_length(blank, r) is None,
{
    let e = Seq::<char>::empty();
    texts::law_trimmed(blank, e, e);
    assert(blank + e + e =~= blank);
}

// Files.

/// Each detail of a file is the one that Commons gives under its name.
pub proof fn law_file_fields(
    hit: FileHit,
    page_id: u64,
    title: Seq<char>,
    info: ApiImageInfo,
    readings: ExifReadings,
    versions: Option<usize>,
)
    requires
        metadata::hit_of(hit, page_id, title, info, readings, versions),
    ensures
        hit.page_id == page_id && hit.title@ == title && hit.version_count == versions,
        info.size is Some ==> hit.size_bytes == info.size->0,
        info.size is None ==> hit.size_bytes == 0,
        hit.width == info.width && hit.height == info.height,
        hit.mime == info.mime && hit.media_type == info.mediatype,
        hit.url == info.url && hit.description_url == info.descriptionurl,
        hit.thumb_url == info.thumburl && hit.uploader == info.user,
        hit.timestamp == info.timestamp && hit.sha1 == info.sha1,
        text::opt_text(hit.license_short_name) == metadata::find_ext(
            info.extmetadata@,
            "LicenseShortName"@,
        ),
        text::opt_text(hit.license_url) == metadata::find_ext(info.extmetadata@, "LicenseUrl"@),
        text::opt_text(hit.categories_text) == metadata::find_ext(info.extmetadata@, "Categories"@),
        info.duration is Some ==> hit.duration_seconds == info.duration,
        info.duration is None ==> hit.duration_seconds == metadata::entry_number(
            metadata::find_entry(info.metadata@, "duration"@),
        ),
        hit.animated == metadata::animated(info.metadata@),
{
}

/// The texts of a file come without markup: its caption, its description and its artist. Its date
/// is that of the picture, or else that of the file.
pub proof fn law_file_texts(
    hit: FileHit,
    page_id: u64,
    title: Seq<char>,
    info: ApiImageInfo,
    readings: ExifReadings,
    versions: Option<usize>,
)
    requires
        metadata::hit_of(hit, page_id, title, info, readings, versions),
    ensures
        ({
            let ext = info.extmetadata@;
            let original = metadata::find_ext(ext, "DateTimeOriginal"@);
            let changed = metadata::find_ext(ext, "DateTime"@);
            &&& text::opt_text(hit.caption_text) == without_markup(
                metadata::find_ext(ext, "ObjectName"@),
            )
            &&& text::opt_text(hit.description_text) == without_markup(
                metadata::find_ext(ext, "ImageDescription"@),
            )
            &&& text::opt_text(hit.artist) == without_markup(metadata::find_ext(ext, "Artist"@))
            &&& original is Some ==> text::opt_text(hit.date_text) == without_markup(original)
            &&& original is None ==> text::opt_text(hit.date_text) == without_markup(changed)
        }),
        ({
            let own = info.metadata@;
            let common = info.commonmetadata@;
            &&& text::opt_text(hit.camera_model) == metadata::first_text(own, common, "Model"@)
            &&& metadata::first_text(own, common, "ExposureTime"@) is None ==> hit.exposure_time
                is None
            &&& metadata::first_text(own, common, "FNumber"@) is None ==> hit.f_number is None
            &&& metadata::first_text(own, common, "ISOSpeedRatings"@) is None ==> hit.iso_speed
                is None
            &&& metadata::first_text(own, common, "FocalLength"@) is None ==> hit.focal_length
                is None
            &&& metadata::first_text(own, common, "ExposureTime"@) is Some ==> text::opt_text(
                hit.exposure_time,
            ) == metadata::shown_exposure(
                metadata::first_text(own, common, "ExposureTime"@)->0,
                readings.exposure_time,
            )
            &&& metadata::first_text(own, common, "FNumber"@) is Some ==> text::opt_text(
                hit.f_number,
            ) == metadata::shown_f_number(
                metadata::first_text(own, common, "FNumber"@)->0,
                readings.f_number,
            )
            &&& metadata::first_text(own, common, "ISOSpeedRatings"@) is Some ==> text::opt_text(
                hit.iso_speed,
            ) == metadata::shown_iso(
                metadata::first_text(own, common, "ISOSpeedRatings"@)->0,
                readings.iso_speed,
            )
            &&& metadata::first_text(own, common, "FocalLength"@) is Some ==> text::opt_text(
                hit.focal_length,
            ) == metadata::shown_focal_length(
                metadata::first_text(own, common, "FocalLength"@)->0,
                readings.focal_length,
            )
            &&& metadata::place_of(own) is Some ==> hit.coordinates == metadata::place_of(own)
            &&& metadata::place_of(own) is None ==> hit.coordinates == metadata::place_of(common)
        }),
{
}

/// A text without its markup, where there is one.
pub open spec fn without_markup(s: Option<Seq<char>>) -> Option<Seq<char>> {
    match s {
        Some(t) => Some(text::trimmed(escaping::html_decoded(metadata::untagged_from(t, 0)))),
        None => None,
    }
}

/// A file name is the title without its namespace.
pub proof fn law_file_names(
    hit: FileHit,
    page_id: u64,
    name: Seq<char>,
    info: ApiImageInfo,
    readings: ExifReadings,
    versions: Option<usize>,
)
    requires
        !text::begins(name, "File:"@),
        metadata::hit_of(hit, page_id, "File:"@ + name, info, readings, versions),
    ensures
        hit.file_name@ == name,
{
    reveal_strlit("File:");
    texts::law_prefix_dropped("File:"@, name);
}

/// The pages with a title and a version each give a file, from their latest version, in order; the
/// others give none.
pub proof fn law_pages_give_files(
    hits: Seq<FileHit>,
    pages: Seq<ApiPage>,
    readings: Seq<ExifReadings>,
    n: nat,
)
    requires
        0 < n <= pages.len(),
        metadata::page_hits(hits, pages, readings, n),
    ensures
        ({
            let page = pages[n - 1];
            let gives = page.title is Some && page.imageinfo@.len() > 0;
            &&& gives ==> hits.len() > 0 && metadata::page_hits(
                hits.drop_last(),
                pages,
                readings,
                (n - 1) as nat,
            ) && hits.last().title@ == (page.title->0)@ && hits.last().url == page.imageinfo@[0].url
            &&& gives && page.pageid is Some ==> hits.last().page_id == page.pageid->0
            &&& gives && page.imageinfo@.len() <= usize::MAX ==> hits.last().version_count == Some(
                page.imageinfo@.len() as usize,
            )
            &&& !gives ==> metadata::page_hits(hits, pages, readings, (n - 1) as nat)
        }),
{
}

/// The extension of a name is what stands behind its last point, in small letters.
pub proof fn law_name_extension(a: Seq<char>, b: Seq<char>)
    requires
        !b.contains('.'),
    ensures
        models::name_extension(a + seq!['.'] + b) == Some(text::lowered(b)),
        models::name_extension(b) is None,
{
    texts::law_cut_last(a, '.', b);
}

/// A file is a sound where its type says so, or its MIME type.
pub proof fn law_sounds(f: FileHit, rest: Seq<char>)
    ensures
        f.media_type is Some && (f.media_type->0)@ == "AUDIO"@ ==> f.audio(),
        f.mime is Some && (f.mime->0)@ == "audio/"@ + rest ==> f.audio(),
        f.media_type is None && f.mime is None ==> !f.audio(),
        f.media_type is None && f.mime is Some && (f.mime->0)@ == "image/"@ + rest ==> !f.audio(),
        f.media_type is None && f.mime is Some && (f.mime->0)@ == "video/"@ + rest ==> !f.audio(),
{
    texts::law_begins_and_finishes(rest, "audio/"@, rest);
    reveal_strlit("audio/");
    reveal_strlit("image/");
    reveal_strlit("video/");
    let i = "image/"@ + rest;
    let v = "video/"@ + rest;
    if text::begins(i, "audio/"@) {
        assert(i.take(6)[0] == 'a');
    }
    if text::begins(v, "audio/"@) {
        assert(v.take(6)[0] == 'a');
    }
}

/// The documents that have pages are told by their extension.
pub proof fn law_documents(f: FileHit, a: Seq<char>, e: Seq<char>)
    requires
        f.file_name@ == a + seq!['.'] + e,
        !e.contains('.'),
    ensures
        f.paginated() <==> text::lowered(e) == "pdf"@ || text::lowered(e) == "djvu"@
            || text::lowered(e) == "djv"@,
{
    law_name_extension(a, e);
}

/// The history of a file is that of its title, or of its name where it has no title.
pub proof fn law_history(f: FileHit)
    ensures
        text::trimmed(f.title@).len() > 0 ==> f.history_address() == Some(
            "https://commons.wikimedia.org/w/index.php?title="@ + escaping::percent_encoded(
                f.title@,
            ) + "&action=history"@,
        ),
        text::trimmed(f.title@).len() == 0 && text::trimmed(f.file_name@).len() > 0
            ==> f.history_address() == Some(
            "https://commons.wikimedia.org/w/index.php?title="@ + escaping::percent_encoded(
                "File:"@ + f.file_name@,
            ) + "&action=history"@,
        ),
        text::trimmed(f.title@).len() == 0 && text::trimmed(f.file_name@).len() == 0
            ==> f.history_address() is None,
{
}

/// A map shows the place with a marker and in its middle, the latitude first.
pub proof fn law_map(c: Coordinates)
    ensures
        ({
            let lat = c.lat.six_decimals@;
            let lon = c.lon.six_decimals@;
            c.map_address() == "https://www.openstreetmap.org/?mlat="@ + lat + "&mlon="@ + lon
                + "#map=15/"@ + lat + "/"@ + lon
        }),
{
}

/// How a date is written.
pub proof fn law_dates_written(y: i32, d: Seq<char>, n: u32)
    ensures
        models::DateView::Year(y).written() == numbers::signed_numeral(y as int),
        models::DateView::Day(d).written() == d,
        models::DateView::RelativeDays(n).written() == numbers::numeral(n as nat) + "days"@,
        models::DateView::PreviousMonth.written() == "month"@,
        models::DateView::PreviousYear.written() == "year"@,
{
}

// Lookups.

/// Of the uploads of a user those that are not over the limit are looked up, in order, and all
/// where the limit is lifted.
pub proof fn law_fitting_uploads(list: Seq<AllImage>, x: AllImage, bypass: bool, max: u64)
    ensures
        ({
            let before = commons::fitting_titles(list, bypass, max);
            let after = commons::fitting_titles(list.push(x), bypass, max);
            &&& bypass || x.size <= max ==> after == before.push(x.title@)
            &&& !bypass && x.size > max ==> after == before
        }),
        commons::fitting_titles(seq![], bypass, max) == Seq::<Seq<char>>::empty(),
{
    assert(list.push(x).drop_last() =~= list);
}

/// A property of a page is the first of its name, and only where it is a text.
pub proof fn law_page_properties(e: MetadataEntry, rest: Seq<MetadataEntry>, name: Seq<char>)
    ensures
        e.name@ == name && e.value is Text ==> commons::property_text(seq![e] + rest, name) == Some(
            (e.value->Text_0)@,
        ),
        e.name@ == name && !(e.value is Text) ==> commons::property_text(seq![e] + rest, name)
            is None,
        e.name@ != name ==> commons::property_text(seq![e] + rest, name) == commons::property_text(
            rest,
            name,
        ),
{
    let all = seq![e] + rest;
    assert(all[0] == e);
    assert(all.skip(1) =~= rest);
}

/// A search by title wants every word of it in the title or the name of a file, in small letters.
pub proof fn law_title_words(terms: Seq<Seq<char>>, t: Seq<char>, f: FileHit)
    ensures
        ({
            let before = commons::title_filter(terms)(f);
            let after = commons::title_filter(terms.push(t))(f);
            let small = text::lower_text(t);
            &&& small.len() > 0 ==> after == (before && text::holds(
                text::lower_text(f.title@ + seq![' '] + f.file_name@),
                small,
            ))
            &&& small.len() == 0 ==> after == before
        }),
        commons::title_filter(seq![])(f),
{
    reveal_strlit(" ");
    assert(" "@ =~= seq![' ']);
    assert(terms.push(t).drop_last() =~= terms);
    let a = commons::wanted_terms(terms);
    let small = text::lower_text(t);
    if small.len() > 0 {
        let b = a.push(small);
        assert(commons::wanted_terms(terms.push(t)) == b);
        let s = commons::haystack(f);
        if commons::holds_all(s, b) {
            assert forall|i: int| 0 <= i < a.len() implies text::holds(s, #[trigger] a[i]) by {
                assert(b[i] == a[i]);
            }
            assert(b[a.len() as int] == small);
        }
        if commons::holds_all(s, a) && text::holds(s, small) {
            assert forall|i: int| 0 <= i < b.len() implies text::holds(s, #[trigger] b[i]) by {
                if i < a.len() {
                    assert(b[i] == a[i]);
                }
            }
        }
    }
}

// Statistics.

/// A number in a column stands at its right end; one that is too long for it stays whole.
pub proof fn law_columns(s: Seq<char>, width: nat)
    ensures
        s.len() <= width ==> stats::right_aligned(s, width).len() == width,
        s.len() <= width ==> stats::right_aligned(s, width).skip(width - s.len()) == s,
        s.len() < width ==> stats::right_aligned(s, width)[0] == ' ',
        s.len() >= width ==> stats::right_aligned(s, width) == s,
{
    if s.len() <= width {
        let r = stats::right_aligned(s, width);
        assert(r.skip(width - s.len()) =~= s);
    }
}

/// The longest bar of a chart is that of the greatest number, and no number is greater.
pub proof fn law_greatest(values: Seq<u64>, i: int)
    requires
        0 <= i < values.len(),
    ensures
        values[i] <= stats::greatest(values, values.len()),
        stats::greatest(values, values.len()) == 1 || values.contains(
            stats::greatest(values, values.len()),
        ),
        stats::greatest(values, values.len()) >= 1,
{
    lemma_greatest(values, values.len(), i);
}

proof fn lemma_greatest(values: Seq<u64>, n: nat, i: int)
    requires
        0 <= i < n <= values.len(),
    ensures
        values[i] <= stats::greatest(values, n),
        stats::greatest(values, n) == 1 || values.contains(stats::greatest(values, n)),
        stats::greatest(values, n) >= 1,
    decreases n,
{
    if n > 1 {
        lemma_greatest(
            values,
            (n - 1) as nat,
            if i < n - 1 {
                i
            } else {
                0
            },
        );
    }
    reveal_with_fuel(stats::greatest, 2);
    assert(values.contains(values[n - 1]));
}

/// A line of a chart is its label, its number and its bar: of twenty signs for the greatest
/// number, of ten for half of it, and of one at least.
pub proof fn law_chart_lines(label: Seq<char>, n: u64, m: u64)
    requires
        0 < n < 0x10_0000_0000_0000,
    ensures
        ({
            let number = stats::right_aligned(numbers::numeral(n as nat), 6);
            let front = label + seq![' '] + number + seq![' '];
            &&& stats::chart_line(label, n, n) == front + signs(20)
            &&& m == 2 * n ==> stats::chart_line(label, n, m) == front + signs(10)
            &&& stats::chart_line(label, 0, n) == label + seq![' '] + stats::right_aligned(
                numbers::numeral(0),
                6,
            ) + seq![' '] + signs(1)
        }),
{
    rounding::law_shares(n as nat);
    reveal_strlit(" ");
    assert(" "@ =~= seq![' ']);
    assert(stats::repeated('#', 20) =~= signs(20));
    assert(stats::repeated('#', 10) =~= signs(10));
    assert(stats::repeated('#', 1) =~= signs(1));
}

/// A bar.
pub open spec fn signs(n: nat) -> Seq<char> {
    Seq::new(n, |i: int| '#')
}

/// A chart has a line for each number, in order, with the label of the same place.
pub proof fn law_charts(values: Seq<u64>, labels: Seq<Seq<char>>, i: int)
    requires
        0 <= i < values.len(),
    ensures
        stats::chart_lines(values, labels).len() == values.len(),
        stats::chart_lines(values, labels)[i] == stats::chart_line(
            labels[i],
            values[i],
            stats::greatest(values, values.len()),
        ),
{
}

/// The days of the week begin with Monday.
pub proof fn law_day_labels()
    ensures
        stats::day_label(0) == "Mon"@,
        stats::day_label(1) == "Tue"@,
        stats::day_label(2) == "Wed"@,
        stats::day_label(3) == "Thu"@,
        stats::day_label(4) == "Fri"@,
        stats::day_label(5) == "Sat"@,
        stats::day_label(6) == "Sun"@,
{
}

/// The addresses of the logs and of the table name the region and what is looked at.
pub proof fn law_console_addresses(config: Config)
    ensures
        stats::log_url(config) == "https://"@ + config.aws_region@
            + ".console.aws.amazon.com/cloudwatch/home?region="@ + config.aws_region@
            + "#logsV2:log-groups/log-group/$252Faws$252Flambda$252F"@
            + config.lambda_function_name@,
        config.dynamodb_table is Some ==> stats::table_url(config) == "https://"@
            + config.aws_region@ + ".console.aws.amazon.com/dynamodbv2/home?region="@
            + config.aws_region@ + "#table?name="@ + (config.dynamodb_table->0)@,
        config.dynamodb_table is None ==> stats::table_url(config)
            == "DynamoDB is disabled in stateless mode"@,
{
}

/// The summary gives the calls, the errors and the durations, each under its own name.
pub proof fn law_summary(s: stats::StatsSnapshot)
    ensures
        ({
            let calls = "Calls    24h "@ + stats::wide(s.invocations_24h) + "  7d "@ + stats::wide(
                s.invocations_7d,
            );
            let errors = "\nErrors   24h "@ + stats::wide(s.errors_24h) + "  7d "@ + stats::wide(
                s.errors_7d,
            ) + "  month "@ + stats::wide(s.errors_month);
            let times = "\nDuration min "@ + stats::right_aligned(s.min_duration_ms@, 6)
                + " ms avg "@ + stats::right_aligned(s.avg_duration_ms@, 6) + " ms max "@
                + stats::right_aligned(s.max_duration_ms@, 6) + " ms"@;
            stats::summary(s) == calls + errors + times
        }),
{
    let calls = "Calls    24h "@ + stats::wide(s.invocations_24h) + "  7d "@ + stats::wide(
        s.invocations_7d,
    );
    let errors = "\nErrors   24h "@ + stats::wide(s.errors_24h) + "  7d "@ + stats::wide(
        s.errors_7d,
    ) + "  month "@ + stats::wide(s.errors_month);
    let times = "\nDuration min "@ + stats::right_aligned(s.min_duration_ms@, 6) + " ms avg "@
        + stats::right_aligned(s.avg_duration_ms@, 6) + " ms max "@ + stats::right_aligned(
        s.max_duration_ms@,
        6,
    ) + " ms"@;
    assert(stats::summary(s) =~= calls + errors + times);
}

/// The texts of a tag are those that stand right inside it; the end of any tag closes it.
pub proof fn law_element_texts(events: Seq<XmlView>, tag: Seq<u8>, t: Seq<char>, other: Seq<u8>)
    requires
        stats::element_texts(events, tag) is Some,
        other != tag,
        tag.len() > 0,
    ensures
        ({
            let before = stats::element_texts(events, tag)->0;
            let inside = events.push(XmlView::Start(tag)).push(XmlView::Text(Some(t)));
            let elsewhere = events.push(XmlView::Start(other)).push(XmlView::Text(Some(t)));
            let behind = events.push(XmlView::End).push(XmlView::Text(Some(t)));
            &&& stats::element_texts(inside, tag) == Some(before.push(t))
            &&& stats::element_texts(elsewhere, tag) == Some(before)
            &&& stats::element_texts(behind, tag) == Some(before)
            &&& stats::element_texts(events.push(XmlView::Other), tag) == Some(before)
        }),
{
    lemma_event(events, XmlView::Start(tag), tag);
    lemma_event(events, XmlView::Start(other), tag);
    lemma_event(events, XmlView::End, tag);
    lemma_event(events, XmlView::Other, tag);
    lemma_event(events.push(XmlView::Start(tag)), XmlView::Text(Some(t)), tag);
    lemma_event(events.push(XmlView::Start(other)), XmlView::Text(Some(t)), tag);
    lemma_event(events.push(XmlView::End), XmlView::Text(Some(t)), tag);
    assert(Seq::<u8>::empty().len() == 0);
}

/// One more event changes what was found as that event says.
proof fn lemma_event(events: Seq<XmlView>, e: XmlView, tag: Seq<u8>)
    ensures
        stats::found_texts(events.push(e), tag, events.len() + 1) == (match stats::found_texts(
            events,
            tag,
            events.len(),
        ) {
            Some((found, current)) => match e {
                XmlView::Start(name) => Some((found, name)),
                XmlView::Text(t) => if current == tag {
                    match t {
                        Some(s) => Some((found.push(s), current)),
                        None => None,
                    }
                } else {
                    Some((found, current))
                },
                XmlView::End => Some((found, Seq::<u8>::empty())),
                _ => Some((found, current)),
            },
            None => None,
        }),
{
    lemma_found_prefix(events, e, tag, events.len());
}

proof fn lemma_found_prefix(events: Seq<XmlView>, e: XmlView, tag: Seq<u8>, n: nat)
    requires
        n <= events.len(),
    ensures
        stats::found_texts(events.push(e), tag, n) == stats::found_texts(events, tag, n),
    decreases n,
{
    if n > 0 {
        lemma_found_prefix(events, e, tag, (n - 1) as nat);
        assert(events.push(e)[n - 1] == events[n - 1]);
    }
}

} // verus!
