//! Laws on what is shortened, and on what is turned away.

use vstd::prelude::*;
use crate::cookies;
use crate::escaping;
use crate::laws::texts;
use crate::models::FileHit;
use crate::telegram;
use crate::text;
use crate::wikidata;

verus! {

/// A text as a short caption has it: with single blanks, and of a length at most.
pub open spec fn cut(s: Seq<char>, max: int) -> Seq<char> {
    text::shortened(text::joined(text::words(s), seq![' ']), max)
}

/// The lines of a short caption, each with its own length at most.
pub proof fn law_short_lines(f: FileHit)
    ensures
        f.caption_text is Some && text::trimmed((f.caption_text->0)@).len() > 0
            ==> telegram::caption_line(f, true) == Some(
            "Caption: "@ + escaping::html_text(cut((f.caption_text->0)@, 180)),
        ),
        f.caption_text is Some && text::trimmed((f.caption_text->0)@).len() == 0
            ==> telegram::caption_line(f, true) is None,
        f.caption_text is None && f.description_text is Some && text::trimmed(
            (f.description_text->0)@,
        ).len() > 0 ==> telegram::description_line(f, true) == Some(
            "Description: "@ + escaping::html_text(cut((f.description_text->0)@, 220)),
        ),
        f.uploader is Some ==> telegram::uploader_line(f, true) == Some(
            "Uploader: <a href=\"https://commons.wikimedia.org/wiki/User:"@
                + escaping::percent_encoded((f.uploader->0)@) + "\">"@ + escaping::html_text(
                cut((f.uploader->0)@, 60),
            ) + "</a>"@,
        ),
        f.uploader is None && f.artist is Some ==> telegram::author_line(f, true) == Some(
            "Author: "@ + escaping::html_text(cut((f.artist->0)@, 90)),
        ),
        f.date_text is Some ==> telegram::date_line(f, true) == Some(
            "Date: "@ + escaping::html_text(cut((f.date_text->0)@, 60)),
        ),
        f.camera_model is Some && text::trimmed((f.camera_model->0)@).len() > 0
            ==> telegram::camera_line(f, true) == Some(
            "Camera model: "@ + telegram::link(
                "https://en.wikipedia.org/wiki/Special:Search?search="@
                    + escaping::percent_encoded((f.camera_model->0)@),
                cut((f.camera_model->0)@, 60),
            ),
        ),
{
    reveal_strlit(" ");
    assert(" "@ =~= seq![' ']);
}

/// The exposure details of a short caption.
pub proof fn law_short_exposure(label: Seq<char>, url: Seq<char>, v: String)
    ensures
        text::trimmed(v@).len() > 0 ==> telegram::exif_line(label, url, Some(v), true) == Some(
            telegram::link(url, label) + ": "@ + escaping::html_text(cut(text::trimmed(v@), 40)),
        ),
        text::trimmed(v@).len() > 0 ==> telegram::exif_line(label, url, Some(v), false) == Some(
            telegram::link(url, label) + ": "@ + escaping::html_text(text::trimmed(v@)),
        ),
        text::trimmed(v@).len() == 0 ==> telegram::exif_line(label, url, Some(v), true) is None,
        telegram::exif_line(label, url, None, true) is None,
{
    reveal_strlit(" ");
    assert(" "@ =~= seq![' ']);
}

/// A blank caption of an inline answer gives way to the description, and a blank description to
/// the MIME type.
pub proof fn law_blank_inline_texts(f: FileHit)
    requires
        f.caption_text is Some && text::trimmed((f.caption_text->0)@).len() == 0,
    ensures
        f.description_text is Some && text::trimmed((f.description_text->0)@).len() > 0
            ==> telegram::inline_text(f) == cut((f.description_text->0)@, 120),
        f.description_text is Some && text::trimmed((f.description_text->0)@).len() == 0 && f.mime
            is Some ==> telegram::inline_text(f) == (f.mime->0)@,
        f.description_text is None && f.mime is Some ==> telegram::inline_text(f) == (f.mime->0)@,
{
    reveal_strlit(" ");
    assert(" "@ =~= seq![' ']);
}

/// A file whose caption does not fit even as a link has its name, of at most 120 characters.
pub proof fn law_last_resort(f: FileHit)
    ensures
        f.description_url is None ==> telegram::caption_of_last_resort(f) == escaping::html_text(
            cut(f.file_name@, 120),
        ),
        f.description_url is Some && telegram::link((f.description_url->0)@, f.file_name@).len()
            > 1024 ==> telegram::caption_of_last_resort(f) == escaping::html_text(
            cut(f.file_name@, 120),
        ),
        f.description_url is Some && telegram::link((f.description_url->0)@, f.file_name@).len()
            <= 1024 ==> telegram::caption_of_last_resort(f) == telegram::link(
            (f.description_url->0)@,
            f.file_name@,
        ),
{
    reveal_strlit(" ");
    assert(" "@ =~= seq![' ']);
}

/// A place is told by its latitude and its longitude, with a link to the map, the history of a file
/// by a link to it, and versions where there is more than one.
pub proof fn law_places_and_history(f: FileHit)
    ensures
        f.coordinates is Some ==> telegram::place_line(f) == Some(
            "Geolocation: <a href=\""@ + (f.coordinates->0).map_address() + "\">"@ + (
            f.coordinates->0).lat.six_decimals@ + ", "@ + (f.coordinates->0).lon.six_decimals@
                + "</a>"@,
        ),
        f.coordinates is None ==> telegram::place_line(f) is None,
        f.history_address() is Some ==> telegram::history_line(f) == Some(
            "<a href=\""@ + escaping::html_attribute(f.history_address()->0) + "\">History</a>"@,
        ),
        f.history_address() is None ==> telegram::history_line(f) is None,
        f.version_count is Some && f.version_count->0 > 1 ==> telegram::versions_line(f) is Some,
        f.version_count is None || f.version_count->0 <= 1 ==> telegram::versions_line(f) is None,
{
}

/// A cookie of another domain, or of none, is not taken.
pub proof fn law_foreign_cookies(payload: Seq<char>, line: Seq<char>)
    requires
        text::trimmed(line) == "Set-Cookie3: "@ + payload,
    ensures
        !text::holds(text::lowered(payload), "wikimedia.org"@) ==> cookies::jar_cookie(line) is None,
        !text::holds(text::lowered(payload), "domain=\""@) ==> cookies::jar_cookie(line) is None,
        !payload.contains('=') ==> cookies::jar_cookie(line) is None,
{
    let p = "Set-Cookie3: "@;
    assert((p + payload).skip(p.len() as int) =~= payload);
    if !payload.contains('=') {
        texts::law_cut_first(payload, '=', payload);
    }
}

/// A pattern without a place for the value, or one that makes no web address, gives no link; nor
/// does an empty value.
pub proof fn law_no_external_address(pattern: Seq<char>, value: Seq<char>)
    ensures
        !text::holds(text::trimmed(pattern), "$1"@) ==> wikidata::external_url(pattern, value)
            is None,
        text::trimmed(value).len() == 0 ==> wikidata::external_url(pattern, value) is None,
        text::trimmed(pattern).len() == 0 ==> wikidata::external_url(pattern, value) is None,
        wikidata::external_url(pattern, value) is Some ==> text::begins(
            wikidata::external_url(pattern, value)->0,
            "https://"@,
        ) || text::begins(wikidata::external_url(pattern, value)->0, "http://"@),
{
}

} // verus!
