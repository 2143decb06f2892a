//! Searching Wikimedia Commons: requests, filters and the order of results.

use vstd::prelude::*;
use vstd::string::*;
use crate::escaping;
use crate::metadata::{ApiPage, Field, MetadataEntry};
use crate::metadata;
use crate::models::{
    CategoryHit, CategoryInfo, DateFilter, FileHit, FileType, Preferences, SearchQuery, SizeFilter,
    SizeOp,
};
use crate::models;
use crate::numbers;
use crate::ordering;
use crate::parser;
use crate::text;

verus! {

/// Default maximum Commons candidates fetched before local filtering.
pub const SEARCH_CANDIDATE_LIMIT: u64 = 60;

/// Commons thumbnail width requested for Telegram image preview media groups.
pub const TELEGRAM_PREVIEW_THUMB_WIDTH: &'static str = "1280";

/// Commons GeoData radius used for inline location searches.
pub const NEARBY_SEARCH_RADIUS_METERS: u64 = 10_000;

/// The metadata asked for with a file.
pub const IMAGEINFO_PROPS: &'static str =
    "timestamp|user|url|size|sha1|mime|mediatype|metadata|commonmetadata|extmetadata";

// The search expression.

/// The MIME type that Commons searches an extension by.
pub open spec fn mime_of(ext: Seq<char>) -> Option<Seq<char>> {
    let e = text::lowered(ext);
    if e == "jpg"@ || e == "jpeg"@ {
        Some("image/jpeg"@)
    } else if e == "png"@ {
        Some("image/png"@)
    } else if e == "gif"@ {
        Some("image/gif"@)
    } else if e == "webp"@ {
        Some("image/webp"@)
    } else if e == "avif"@ {
        Some("image/avif"@)
    } else if e == "tif"@ || e == "tiff"@ {
        Some("image/tiff"@)
    } else if e == "bmp"@ {
        Some("image/bmp"@)
    } else if e == "svg"@ {
        Some("image/svg+xml"@)
    } else if e == "xcf"@ {
        Some("image/x-xcf"@)
    } else if e == "mp3"@ {
        Some("audio/mpeg"@)
    } else if e == "oga"@ || e == "ogg"@ {
        Some("audio/ogg"@)
    } else if e == "flac"@ {
        Some("audio/flac"@)
    } else if e == "wav"@ {
        Some("audio/wav"@)
    } else if e == "opus"@ {
        Some("audio/opus"@)
    } else if e == "mid"@ || e == "midi"@ {
        Some("audio/midi"@)
    } else if e == "webm"@ {
        Some("video/webm"@)
    } else if e == "ogv"@ {
        Some("video/ogg"@)
    } else if e == "mpeg"@ || e == "mpg"@ {
        Some("video/mpeg"@)
    } else if e == "mp4"@ {
        Some("video/mp4"@)
    } else if e == "pdf"@ {
        Some("application/pdf"@)
    } else if e == "djvu"@ || e == "djv"@ {
        Some("image/vnd.djvu"@)
    } else if e == "stl"@ {
        Some("model/stl"@)
    } else {
        None
    }
}

/// Maps common extensions to MIME types used by Commons search.
pub fn extension_to_mime(ext: &str) -> (r: Option<&'static str>)
    ensures
        text::opt_slice(r) == mime_of(ext@),
{
    let lower = text::ascii_lowercase(ext);
    let e = lower.as_str();
    if text::same(e, "jpg") || text::same(e, "jpeg") {
        Some("image/jpeg")
    } else if text::same(e, "png") {
        Some("image/png")
    } else if text::same(e, "gif") {
        Some("image/gif")
    } else if text::same(e, "webp") {
        Some("image/webp")
    } else if text::same(e, "avif") {
        Some("image/avif")
    } else if text::same(e, "tif") || text::same(e, "tiff") {
        Some("image/tiff")
    } else if text::same(e, "bmp") {
        Some("image/bmp")
    } else if text::same(e, "svg") {
        Some("image/svg+xml")
    } else if text::same(e, "xcf") {
        Some("image/x-xcf")
    } else if text::same(e, "mp3") {
        Some("audio/mpeg")
    } else if text::same(e, "oga") || text::same(e, "ogg") {
        Some("audio/ogg")
    } else if text::same(e, "flac") {
        Some("audio/flac")
    } else if text::same(e, "wav") {
        Some("audio/wav")
    } else if text::same(e, "opus") {
        Some("audio/opus")
    } else if text::same(e, "mid") || text::same(e, "midi") {
        Some("audio/midi")
    } else if text::same(e, "webm") {
        Some("video/webm")
    } else if text::same(e, "ogv") {
        Some("video/ogg")
    } else if text::same(e, "mpeg") || text::same(e, "mpg") {
        Some("video/mpeg")
    } else if text::same(e, "mp4") {
        Some("video/mp4")
    } else if text::same(e, "pdf") {
        Some("application/pdf")
    } else if text::same(e, "djvu") || text::same(e, "djv") {
        Some("image/vnd.djvu")
    } else if text::same(e, "stl") {
        Some("model/stl")
    } else {
        None
    }
}

/// A list with an item more, where there is one.
pub open spec fn with_opt(list: Seq<Seq<char>>, item: Option<Seq<char>>) -> Seq<Seq<char>> {
    match item {
        Some(x) => list.push(x),
        None => list,
    }
}

/// The file family that a search goes by.
pub open spec fn effective_type(q: models::QueryView, p: models::PreferencesModel) -> FileType {
    match q.file_type {
        Some(t) => t,
        None => p.file_type,
    }
}

/// The extension that a search goes by.
pub open spec fn effective_extension(
    q: models::QueryView,
    p: models::PreferencesModel,
) -> Option<Seq<char>> {
    if q.extension is Some {
        q.extension
    } else {
        p.extension
    }
}

/// The clause of a search for an extension.
pub open spec fn extension_clause(ext: Seq<char>) -> Seq<char> {
    match mime_of(ext) {
        Some(m) => "filemime:\""@ + m + "\""@,
        None => "intitle:/"@ + escaping::regex_literal("."@ + ext) + "/"@,
    }
}

/// A number of bytes in whole kibibytes, and at least one.
pub open spec fn kibibytes(bytes: u64) -> nat {
    if bytes / 1024 > 1 {
        (bytes / 1024) as nat
    } else {
        1
    }
}

/// The clause of a search for a size.
pub open spec fn size_clause(s: SizeFilter) -> Seq<char> {
    match s.op {
        SizeOp::GreaterThan => "filesize:>"@ + numbers::numeral(kibibytes(s.bytes)),
        SizeOp::LessThan => "filesize:<"@ + numbers::numeral(kibibytes(s.bytes)),
    }
}

/// The clauses of a search for sizes.
pub open spec fn size_clauses(s: Seq<SizeFilter>) -> Seq<Seq<char>> {
    Seq::new(s.len(), |i: int| size_clause(s[i]))
}

/// The clause of a search that leaves a category out.
pub open spec fn hidden_clause(category: Seq<char>) -> Seq<char> {
    "-incategory:\""@ + parser::category_name(category) + "\""@
}

/// The clauses of a search that leave categories out.
pub open spec fn hidden_clauses(categories: Seq<Seq<char>>) -> Seq<Seq<char>> {
    Seq::new(categories.len(), |i: int| hidden_clause(categories[i]))
}

/// The clauses of a search.
pub open spec fn search_clauses(
    q: models::QueryView,
    p: models::PreferencesModel,
    max_file_bytes: Option<u64>,
) -> Seq<Seq<char>> {
    let words = seq![
        if q.term_text().len() > 0 {
            q.term_text()
        } else {
            "*"@
        },
    ];
    let family = match effective_type(q, p).predicate() {
        Some(v) => Some("filetype:"@ + v),
        None => None,
    };
    let extension = match effective_extension(q, p) {
        Some(e) => Some(extension_clause(e)),
        None => None,
    };
    let category = match q.category {
        Some(c) => Some("incategory:\""@ + parser::category_name(c) + "\""@),
        None => None,
    };
    let limit = match max_file_bytes {
        Some(n) => Some("filesize:<"@ + numbers::numeral(kibibytes(n))),
        None => None,
    };
    with_opt(
        with_opt(with_opt(with_opt(words, family), extension), category) + hidden_clauses(
            p.blacklist_categories,
        ) + size_clauses(q.size_filters),
        limit,
    )
}

/// A search asks to leave out every category that the preferences hide.
pub proof fn law_query_hides_categories(
    q: models::QueryView,
    p: models::PreferencesModel,
    max_file_bytes: Option<u64>,
    i: int,
)
    requires
        0 <= i < p.blacklist_categories.len(),
    ensures
        search_clauses(q, p, max_file_bytes).contains(hidden_clause(p.blacklist_categories[i])),
{
    let hidden = hidden_clauses(p.blacklist_categories);
    let clauses = search_clauses(q, p, max_file_bytes);
    let sizes = size_clauses(q.size_filters);
    let n = if max_file_bytes is Some {
        clauses.len() - 1
    } else {
        clauses.len() as int
    };
    let k = n - sizes.len() - hidden.len() + i;
    assert(clauses[k] == hidden[i]);
}

/// Writes a number of bytes in whole kibibytes.
fn write_kibibytes(bytes: u64) -> (r: String)
    ensures
        r@ == numbers::numeral(kibibytes(bytes)),
{
    if bytes / 1024 > 1 {
        numbers::decimal(bytes / 1024)
    } else {
        numbers::decimal(1)
    }
}

/// Adds a text to a list.
fn push_text(list: &mut Vec<String>, s: String)
    ensures
        text::texts(final(list)@) == text::texts(old(list)@).push(s@),
{
    proof {
        text::lemma_texts_push(list@, s);
    }
    list.push(s);
}

/// Adds the clauses that leave categories out.
fn push_hidden_clauses(terms: &mut Vec<String>, categories: &Vec<String>)
    ensures
        text::texts(final(terms)@) == text::texts(old(terms)@) + hidden_clauses(
            text::texts(categories@),
        ),
{
    let ghost base = text::texts(terms@);
    let ghost hidden = hidden_clauses(text::texts(categories@));
    let mut i: usize = 0;
    assert(base + hidden.take(0) =~= base);
    while i < categories.len()
        invariant
            i <= categories.len(),
            hidden == hidden_clauses(text::texts(categories@)),
            text::texts(terms@) == base + hidden.take(i as int),
        decreases categories.len() - i,
    {
        push_text(
            terms,
            "-incategory:\"".to_owned().concat(
                parser::normalize_category(categories[i].as_str()).as_str(),
            ).concat("\""),
        );
        assert(base + hidden.take(i + 1) =~= (base + hidden.take(i as int)).push(hidden[i as int]));
        i += 1;
    }
    assert(hidden.take(hidden.len() as int) =~= hidden);
}

/// Builds the Commons CirrusSearch query string.
pub fn build_cirrus_query(
    query: &SearchQuery,
    preferences: &Preferences,
    max_file_bytes: Option<u64>,
) -> (r: String)
    ensures
        r@ == text::joined(search_clauses(query@, preferences@, max_file_bytes), " "@),
{
    let mut terms: Vec<String> = Vec::new();
    let words = query.term_text();
    assert(text::texts(terms@) =~= seq![]);
    if words.as_str().unicode_len() > 0 {
        push_text(&mut terms, words);
    } else {
        push_text(&mut terms, "*".to_owned());
    }
    let file_type: FileType = match query.file_type {
        Some(t) => t,
        None => preferences.file_type,
    };
    if let Some(value) = file_type.cirrus_filetype() {
        push_text(&mut terms, "filetype:".to_owned().concat(value));
    }
    let extension: Option<&String> = match &query.extension {
        Some(e) => Some(e),
        None => match &preferences.extension {
            Some(e) => Some(e),
            None => None,
        },
    };
    if let Some(ext) = extension {
        if let Some(mime) = extension_to_mime(ext.as_str()) {
            push_text(&mut terms, "filemime:\"".to_owned().concat(mime).concat("\""));
        } else {
            let dotted = ".".to_owned().concat(ext.as_str());
            push_text(
                &mut terms,
                "intitle:/".to_owned().concat(
                    escaping::regex_escape(dotted.as_str()).as_str(),
                ).concat("/"),
            );
        }
    }
    if let Some(category) = &query.category {
        push_text(
            &mut terms,
            "incategory:\"".to_owned().concat(
                parser::normalize_category(category.as_str()).as_str(),
            ).concat("\""),
        );
    }
    push_hidden_clauses(&mut terms, &preferences.blacklist_categories);
    let ghost base = text::texts(terms@);
    let ghost sizes = query.size_filters@;
    let mut i: usize = 0;
    assert(base + size_clauses(sizes.take(0)) =~= base);
    while i < query.size_filters.len()
        invariant
            i <= query.size_filters.len(),
            sizes == query.size_filters@,
            text::texts(terms@) == base + size_clauses(sizes.take(i as int)),
        decreases query.size_filters.len() - i,
    {
        let size: SizeFilter = query.size_filters[i];
        let kib = write_kibibytes(size.bytes);
        match size.op {
            SizeOp::GreaterThan => push_text(
                &mut terms,
                "filesize:>".to_owned().concat(kib.as_str()),
            ),
            SizeOp::LessThan => push_text(
                &mut terms,
                "filesize:<".to_owned().concat(kib.as_str()),
            ),
        }
        proof {
            assert(base + size_clauses(sizes.take(i + 1)) =~= (base + size_clauses(
                sizes.take(i as int),
            )).push(size_clause(size)));
        }
        i += 1;
    }
    assert(sizes.take(sizes.len() as int) =~= sizes);
    if let Some(max_bytes) = max_file_bytes {
        push_text(
            &mut terms,
            "filesize:<".to_owned().concat(write_kibibytes(max_bytes).as_str()),
        );
    }
    text::join(&terms, " ")
}

// User names.

/// A user name as Commons writes it.
pub open spec fn user_name(s: Seq<char>) -> Seq<char> {
    text::expanded(text::trimmed(s), text::substitution('_', " "@))
}

/// Normalizes Commons usernames for API filters and local comparisons.
pub fn normalize_username(value: &str) -> (r: String)
    ensures
        r@ == user_name(value@),
{
    text::replace_char(text::trim(value).as_str(), '_', " ")
}

/// A user name holds no underscore.
pub proof fn law_user_name_spaces(s: Seq<char>)
    ensures
        !user_name(s).contains('_'),
{
    reveal_strlit(" ");
    text::lemma_substitution_removes(text::trimmed(s), '_', " "@);
}

/// Returns true when two usernames are identical for case-sensitive API filters.
pub fn same_api_username(left: &str, right: &str) -> (r: bool)
    ensures
        r == (user_name(left@) == user_name(right@)),
{
    text::same(normalize_username(left).as_str(), normalize_username(right).as_str())
}

/// The user that the title of a user page names.
pub open spec fn page_user(title: Seq<char>) -> Option<Seq<char>> {
    let user = title.skip("User:"@.len() as int);
    if text::begins(title, "User:"@) && !user.contains('/') {
        Some(user)
    } else {
        None
    }
}

/// Takes the user from the title of a user page.
fn user_of_page(title: &str) -> (r: Option<String>)
    ensures
        text::opt_text(r) == page_user(title@),
{
    match text::strip_prefix(title, "User:") {
        Some(user) => if text::contains_char(user.as_str(), '/') {
            None
        } else {
            Some(user)
        },
        None => None,
    }
}

/// A user name as it is looked for: in lower case.
pub open spec fn user_key(s: Seq<char>) -> Seq<char> {
    text::lower_text(user_name(s))
}

/// Writes a user name as it is looked for.
pub fn username_key(value: &str) -> (r: String)
    ensures
        r@ == user_key(value@),
{
    text::to_lowercase(normalize_username(value).as_str())
}

/// The first user of the titles whose name is the wanted one.
pub open spec fn matching_user(wanted: Seq<char>, titles: Seq<Seq<char>>) -> Option<Seq<char>>
    decreases titles.len(),
{
    if titles.len() == 0 {
        None
    } else if page_user(titles[0]) is Some && user_key(page_user(titles[0])->0) == wanted {
        page_user(titles[0])
    } else {
        matching_user(wanted, titles.skip(1))
    }
}

/// The first user of the titles.
pub open spec fn first_user(titles: Seq<Seq<char>>) -> Option<Seq<char>>
    decreases titles.len(),
{
    if titles.len() == 0 {
        None
    } else if page_user(titles[0]) is Some {
        page_user(titles[0])
    } else {
        first_user(titles.skip(1))
    }
}

/// Picks a canonical username from User-namespace prefix search titles: the one that was asked
/// for, or else the first.
pub fn choose_canonical_username(requested: &str, titles: &Vec<String>) -> (r: Option<String>)
    ensures
        text::opt_text(r) == (if matching_user(user_key(requested@), text::texts(titles@)) is Some {
            matching_user(user_key(requested@), text::texts(titles@))
        } else {
            first_user(text::texts(titles@))
        }),
{
    let wanted = username_key(requested);
    let ghost all = text::texts(titles@);
    let mut first: Option<String> = None;
    let mut i: usize = 0;
    assert(all.skip(0) =~= all);
    while i < titles.len()
        invariant
            i <= titles.len(),
            all == text::texts(titles@),
            wanted@ == user_key(requested@),
            matching_user(wanted@, all) == matching_user(wanted@, all.skip(i as int)),
            first_user(all) == (if first is Some {
                text::opt_text(first)
            } else {
                first_user(all.skip(i as int))
            }),
        decreases titles.len() - i,
    {
        proof {
            assert(all.skip(i as int)[0] == titles@[i as int]@);
            assert(all.skip(i as int).skip(1) =~= all.skip(i + 1));
        }
        if let Some(user) = user_of_page(titles[i].as_str()) {
            if text::same(username_key(user.as_str()).as_str(), wanted.as_str()) {
                return Some(user);
            }
            if first.is_none() {
                first = Some(user);
            }
        }
        i += 1;
    }
    first
}

// Dates.

/// A point in time: its date where it was written, and the nanoseconds since 1970 in UTC.
#[derive(Clone, Copy, Debug, PartialEq, Eq, Structural)]
pub struct Moment {
    /// Year.
    pub year: i32,
    /// Month.
    pub month: u8,
    /// Day of the month.
    pub day: u8,
    /// Nanoseconds since 1970 in UTC.
    pub nanos: i128,
}

/// A date.
#[derive(Clone, Copy, Debug, PartialEq, Eq, Structural)]
pub struct CivilDate {
    /// Year.
    pub year: i32,
    /// Month.
    pub month: u8,
    /// Day of the month.
    pub day: u8,
}

/// What `time::OffsetDateTime::parse` makes of a text in the format of RFC 3339.
pub uninterp spec fn rfc3339_moment(s: Seq<char>) -> Option<Moment>;

/// `time::OffsetDateTime::parse` with the format `Rfc3339`. The result depends on the text
/// alone; which texts are accepted is not stated.
#[verifier::external_body]
pub(crate) fn parse_timestamp(s: &str) -> (r: Option<Moment>)
    ensures
        r == rfc3339_moment(s@),
{
    time::OffsetDateTime::parse(s, &time::format_description::well_known::Rfc3339).ok().map(
        |t| Moment {
            year: t.year(),
            month: u8::from(t.month()),
            day: t.day(),
            nanos: t.unix_timestamp_nanos(),
        },
    )
}

/// What `time::Date::parse` makes of a text in the format `[year]-[month]-[day]`.
pub uninterp spec fn iso_date(s: Seq<char>) -> Option<CivilDate>;

/// `time::Date::parse` with the format `[year]-[month]-[day]`. The result depends on the text
/// alone; which texts are accepted is not stated.
#[verifier::external_body]
pub(crate) fn parse_date(s: &str) -> (r: Option<CivilDate>)
    ensures
        r == iso_date(s@),
{
    let format = time::format_description::parse_borrowed::<1>("[year]-[month]-[day]").ok()?;
    let date = time::Date::parse(s, &format).ok()?;
    Some(CivilDate { year: date.year(), month: u8::from(date.month()), day: date.day() })
}

/// The earliest point in time that can be counted back to: the year -9999.
pub const EARLIEST_NANOS: i128 = -377_705_116_800_000_000_000;

/// Nanoseconds of a day.
pub const DAY_NANOS: i128 = 86_400_000_000_000;

/// The number of days that a filter counts back.
pub open spec fn days_back(f: models::DateView) -> nat {
    match f {
        models::DateView::RelativeDays(n) => n as nat,
        models::DateView::PreviousMonth => 31,
        models::DateView::PreviousYear => 366,
        _ => 0,
    }
}

/// True where a filter does not count back, or not further than time goes.
pub open spec fn reachable(f: Option<models::DateView>, now: i128) -> bool {
    match f {
        Some(models::DateView::Year(_)) | Some(models::DateView::Day(_)) | None => true,
        Some(d) => now - days_back(d) * DAY_NANOS >= EARLIEST_NANOS,
    }
}

/// Returns true when the calendar reaches back to what the date of a search asks for.
pub fn date_reachable(query: &SearchQuery, now: i128) -> (r: bool)
    ensures
        r == reachable(query@.date, now),
{
    let days: i128 = match &query.date {
        Some(DateFilter::RelativeDays(n)) => *n as i128,
        Some(DateFilter::PreviousMonth) => 31,
        Some(DateFilter::PreviousYear) => 366,
        _ => return true,
    };
    now >= EARLIEST_NANOS && now - days * DAY_NANOS >= EARLIEST_NANOS
}

/// True where a point in time satisfies a filter; `day` is what the day of the filter reads as.
pub open spec fn moment_passes(
    m: Moment,
    f: models::DateView,
    day: Option<CivilDate>,
    now: i128,
) -> bool {
    match f {
        models::DateView::Year(y) => m.year == y,
        models::DateView::Day(_) => day == Some(
            CivilDate { year: m.year, month: m.month, day: m.day },
        ),
        _ => m.nanos >= now - days_back(f) * DAY_NANOS,
    }
}

/// Returns true when a point in time satisfies the parsed date filter.
pub fn moment_matches(
    moment: &Moment,
    filter: &DateFilter,
    day: &Option<CivilDate>,
    now: i128,
) -> (r: bool)
    requires
        reachable(Some(filter@), now),
    ensures
        r == moment_passes(*moment, filter@, *day, now),
{
    match filter {
        DateFilter::Year(y) => moment.year == *y,
        DateFilter::Day(_) => match day {
            Some(d) => d.year == moment.year && d.month == moment.month && d.day == moment.day,
            None => false,
        },
        DateFilter::RelativeDays(n) => moment.nanos >= now - (*n as i128) * DAY_NANOS,
        DateFilter::PreviousMonth => moment.nanos >= now - 31 * DAY_NANOS,
        DateFilter::PreviousYear => moment.nanos >= now - 366 * DAY_NANOS,
    }
}

/// True where a timestamp satisfies a filter.
pub open spec fn timestamp_passes(s: Seq<char>, f: models::DateView, now: i128) -> bool {
    match rfc3339_moment(s) {
        Some(m) => moment_passes(
            m,
            f,
            match f {
                models::DateView::Day(d) => iso_date(d),
                _ => None,
            },
            now,
        ),
        None => false,
    }
}

/// Returns true when a Commons timestamp satisfies the parsed date filter.
pub fn timestamp_matches(timestamp: &str, filter: &DateFilter, now: i128) -> (r: bool)
    requires
        rfc3339_moment(timestamp@) is Some ==> reachable(Some(filter@), now),
    ensures
        r == timestamp_passes(timestamp@, filter@, now),
{
    match parse_timestamp(timestamp) {
        Some(moment) => {
            let day: Option<CivilDate> = match filter {
                DateFilter::Day(d) => parse_date(d.as_str()),
                _ => None,
            };
            moment_matches(&moment, filter, &day, now)
        },
        None => false,
    }
}

// Filters.

/// True where a user is on a list, in any case of ASCII letters.
pub open spec fn on_list(list: Seq<Seq<char>>, user: Seq<char>) -> bool {
    exists|i: int| 0 <= i < list.len() && text::lowered(#[trigger] list[i]) == text::lowered(user)
}

/// True where a size passes a filter.
pub open spec fn size_passes(size: u64, f: SizeFilter) -> bool {
    match f.op {
        SizeOp::GreaterThan => size > f.bytes,
        SizeOp::LessThan => size < f.bytes,
    }
}

/// True where a file is of a family.
pub open spec fn of_family(hit: FileHit, t: FileType) -> bool {
    let ext = models::name_extension(hit.file_name@);
    match t {
        FileType::All => true,
        FileType::Images => {
            ||| ext is Some && parser::image_extension(ext->0)
            ||| hit.mime is Some && text::begins((hit.mime->0)@, "image/"@)
        },
        FileType::Audio => {
            ||| ext is Some && parser::audio_extension(ext->0)
            ||| hit.audio()
        },
        FileType::Video => {
            ||| ext is Some && parser::video_extension(ext->0)
            ||| hit.mime is Some && text::begins((hit.mime->0)@, "video/"@)
        },
    }
}

/// True where a list of categories to hide names a category, in any case of ASCII letters.
pub open spec fn hides(hidden: Seq<Seq<char>>, category: Seq<char>) -> bool {
    exists|i: int|
        0 <= i < hidden.len() && text::lowered(parser::category_name(#[trigger] hidden[i]))
            == text::lowered(parser::category_name(category))
}

/// True of a file that Commons lists in a category to hide.
pub open spec fn in_hidden_category(hit: FileHit, hidden: Seq<Seq<char>>) -> bool {
    hit.categories_text is Some && exists|i: int|
        0 <= i < text::parts((hit.categories_text->0)@, '|').len() && hides(
            hidden,
            #[trigger] text::parts((hit.categories_text->0)@, '|')[i],
        )
}

/// True of a file whose size and uploader are those that a search asks for.
pub open spec fn size_and_user_pass(hit: FileHit, q: models::QueryView, max_file_bytes: u64) -> bool {
    &&& q.bypass_telegram_limit || hit.size_bytes <= max_file_bytes
    &&& q.user is Some ==> hit.uploader is Some && text::lowered(user_name((hit.uploader->0)@))
        == text::lowered(user_name(q.user->0))
}

/// True where a file passes a search's filters; `date_passes` says whether its upload date does.
pub open spec fn hit_passes(
    hit: FileHit,
    q: models::QueryView,
    p: models::PreferencesModel,
    max_file_bytes: u64,
    date_passes: bool,
) -> bool {
    &&& size_and_user_pass(hit, q, max_file_bytes)
    &&& q.date is Some ==> hit.timestamp is Some && date_passes
    &&& hit.uploader is Some ==> !on_list(p.blacklist_uploaders, (hit.uploader->0)@)
    &&& !in_hidden_category(hit, p.blacklist_categories)
    &&& effective_extension(q, p) is Some ==> models::name_extension(hit.file_name@) == Some(
        text::lowered(effective_extension(q, p)->0),
    )
    &&& forall|i: int|
        0 <= i < q.size_filters.len() ==> size_passes(
            hit.size_bytes,
            #[trigger] q.size_filters[i],
        )
    &&& of_family(hit, effective_type(q, p))
}

/// Returns true when a user is on a list, in any case of ASCII letters.
fn is_on_list(list: &Vec<String>, user: &str) -> (r: bool)
    ensures
        r == on_list(text::texts(list@), user@),
{
    let ghost all = text::texts(list@);
    let mut i: usize = 0;
    while i < list.len()
        invariant
            i <= list.len(),
            all == text::texts(list@),
            forall|k: int| 0 <= k < i ==> text::lowered(#[trigger] all[k]) != text::lowered(user@),
        decreases list.len() - i,
    {
        if text::same_ignoring_case(list[i].as_str(), user) {
            assert(text::lowered(all[i as int]) == text::lowered(user@));
            return true;
        }
        i += 1;
    }
    false
}

/// Returns true when a list of categories to hide names a category.
fn is_hidden(hidden: &Vec<String>, category: &str) -> (r: bool)
    ensures
        r == hides(text::texts(hidden@), category@),
{
    let ghost all = text::texts(hidden@);
    let name = parser::normalize_category(category);
    let mut i: usize = 0;
    while i < hidden.len()
        invariant
            i <= hidden.len(),
            all == text::texts(hidden@),
            name@ == parser::category_name(category@),
            forall|k: int|
                0 <= k < i ==> text::lowered(parser::category_name(#[trigger] all[k]))
                    != text::lowered(name@),
        decreases hidden.len() - i,
    {
        let own = parser::normalize_category(hidden[i].as_str());
        if text::same_ignoring_case(own.as_str(), name.as_str()) {
            assert(text::lowered(parser::category_name(all[i as int])) == text::lowered(name@));
            return true;
        }
        i += 1;
    }
    false
}

/// Returns true when Commons lists a file in a category to hide.
fn is_in_hidden_category(hit: &FileHit, hidden: &Vec<String>) -> (r: bool)
    ensures
        r == in_hidden_category(*hit, text::texts(hidden@)),
{
    let listed = match &hit.categories_text {
        Some(t) => text::split(t.as_str(), '|'),
        None => return false,
    };
    let ghost all = text::parts((hit.categories_text->0)@, '|');
    let mut i: usize = 0;
    while i < listed.len()
        invariant
            i <= listed.len(),
            hit.categories_text is Some,
            all == text::parts((hit.categories_text->0)@, '|'),
            text::texts(listed@) == all,
            forall|k: int| 0 <= k < i ==> !hides(text::texts(hidden@), #[trigger] all[k]),
        decreases listed.len() - i,
    {
        assert(listed@[i as int]@ == text::texts(listed@)[i as int]);
        if is_hidden(hidden, listed[i].as_str()) {
            assert(hides(text::texts(hidden@), all[i as int]));
            return true;
        }
        i += 1;
    }
    assert(text::texts(listed@).len() == listed@.len());
    false
}

/// Returns true when the size and the uploader of a file are those that a search asks for.
fn size_and_user_match(hit: &FileHit, query: &SearchQuery, max_file_bytes: u64) -> (r: bool)
    ensures
        r == size_and_user_pass(*hit, query@, max_file_bytes),
{
    if !query.bypass_telegram_limit && hit.size_bytes > max_file_bytes {
        return false;
    }
    match (&query.user, &hit.uploader) {
        (Some(user), Some(uploader)) => text::same_ignoring_case(
            normalize_username(uploader.as_str()).as_str(),
            normalize_username(user.as_str()).as_str(),
        ),
        (Some(_), None) => false,
        (None, _) => true,
    }
}

/// Returns true when a size passes every filter.
fn sizes_pass(size: u64, filters: &Vec<SizeFilter>) -> (r: bool)
    ensures
        r == (forall|i: int|
            0 <= i < filters@.len() ==> size_passes(size, #[trigger] filters@[i])),
{
    let mut i: usize = 0;
    while i < filters.len()
        invariant
            i <= filters.len(),
            forall|k: int| 0 <= k < i ==> size_passes(size, #[trigger] filters@[k]),
        decreases filters.len() - i,
    {
        let f: SizeFilter = filters[i];
        let passes: bool = match f.op {
            SizeOp::GreaterThan => size > f.bytes,
            SizeOp::LessThan => size < f.bytes,
        };
        if !passes {
            assert(!size_passes(size, filters@[i as int]));
            return false;
        }
        i += 1;
    }
    true
}

/// Returns true when a file is of a family.
fn is_of_family(hit: &FileHit, t: FileType) -> (r: bool)
    ensures
        r == of_family(*hit, t),
{
    let ext = hit.extension();
    match t {
        FileType::All => true,
        FileType::Images => (match &ext {
            Some(e) => parser::is_image_extension(e.as_str()),
            None => false,
        }) || (match &hit.mime {
            Some(m) => text::starts_with(m.as_str(), "image/"),
            None => false,
        }),
        FileType::Audio => (match &ext {
            Some(e) => parser::is_audio_extension(e.as_str()),
            None => false,
        }) || hit.is_audio(),
        FileType::Video => (match &ext {
            Some(e) => parser::is_video_extension(e.as_str()),
            None => false,
        }) || (match &hit.mime {
            Some(m) => text::starts_with(m.as_str(), "video/"),
            None => false,
        }),
    }
}

/// Returns true when a file passes a search's filters, given whether its upload date does.
pub fn hit_matches(
    hit: &FileHit,
    query: &SearchQuery,
    preferences: &Preferences,
    max_file_bytes: u64,
    date_passes: bool,
) -> (r: bool)
    ensures
        r == hit_passes(*hit, query@, preferences@, max_file_bytes, date_passes),
{
    if !size_and_user_match(hit, query, max_file_bytes) {
        return false;
    }
    if query.date.is_some() && !(hit.timestamp.is_some() && date_passes) {
        return false;
    }
    if let Some(uploader) = &hit.uploader {
        if is_on_list(&preferences.blacklist_uploaders, uploader.as_str()) {
            return false;
        }
    }
    if is_in_hidden_category(hit, &preferences.blacklist_categories) {
        return false;
    }
    let extension: Option<&String> = match &query.extension {
        Some(e) => Some(e),
        None => match &preferences.extension {
            Some(e) => Some(e),
            None => None,
        },
    };
    if let Some(e) = extension {
        match hit.extension() {
            Some(own) => {
                if !text::same(own.as_str(), text::ascii_lowercase(e.as_str()).as_str()) {
                    return false;
                }
            },
            None => {
                return false;
            },
        }
    }
    if !sizes_pass(hit.size_bytes, &query.size_filters) {
        proof {
            let i = choose|i: int|
                0 <= i < query.size_filters@.len() && !size_passes(
                    hit.size_bytes,
                    #[trigger] query.size_filters@[i],
                );
            assert(!size_passes(hit.size_bytes, query@.size_filters[i]));
        }
        return false;
    }
    let file_type: FileType = match query.file_type {
        Some(t) => t,
        None => preferences.file_type,
    };
    is_of_family(hit, file_type)
}

/// True where the upload date of a file passes a search's date filter.
pub open spec fn upload_passes(hit: FileHit, q: models::QueryView, now: i128) -> bool {
    q.date is Some && hit.timestamp is Some && timestamp_passes(
        (hit.timestamp->0)@,
        q.date->0,
        now,
    )
}

/// The test that a search's filters make.
pub open spec fn local_filter(
    q: models::QueryView,
    p: models::PreferencesModel,
    max_file_bytes: u64,
    now: i128,
) -> spec_fn(FileHit) -> bool {
    |hit: FileHit| hit_passes(hit, q, p, max_file_bytes, upload_passes(hit, q, now))
}

/// True of a file whose upload date a search looks at: it is known and can be read, and the file is
/// not left out before.
pub open spec fn date_counts(hit: FileHit, q: models::QueryView, max_file_bytes: u64) -> bool {
    &&& q.date is Some
    &&& hit.timestamp is Some
    &&& rfc3339_moment((hit.timestamp->0)@) is Some
    &&& size_and_user_pass(hit, q, max_file_bytes)
}

/// Returns true when a search looks at the upload date of a file.
fn looks_at_date(hit: &FileHit, query: &SearchQuery, max_file_bytes: u64) -> (r: bool)
    ensures
        r == date_counts(*hit, query@, max_file_bytes),
{
    let readable: bool = match &hit.timestamp {
        Some(t) => parse_timestamp(t.as_str()).is_some(),
        None => false,
    };
    query.date.is_some() && readable && size_and_user_match(hit, query, max_file_bytes)
}

/// True where the calendar reaches back to what the date of a search asks for, or no upload date
/// is looked at.
pub open spec fn dates_in_reach(
    hits: Seq<FileHit>,
    q: models::QueryView,
    max_file_bytes: u64,
    now: i128,
) -> bool {
    reachable(q.date, now) || forall|i: int|
        0 <= i < hits.len() ==> !date_counts(#[trigger] hits[i], q, max_file_bytes)
}

/// Returns true when the files can be filtered by the date of a search: the calendar reaches back
/// to what it asks for, or no upload date is looked at.
pub fn can_filter_dates(
    hits: &Vec<FileHit>,
    query: &SearchQuery,
    max_file_bytes: u64,
    now: i128,
) -> (r: bool)
    ensures
        r == dates_in_reach(hits@, query@, max_file_bytes, now),
{
    if date_reachable(query, now) {
        return true;
    }
    let mut i: usize = 0;
    while i < hits.len()
        invariant
            i <= hits.len(),
            !reachable(query@.date, now),
            forall|k: int|
                0 <= k < i ==> !date_counts(#[trigger] hits@[k], query@, max_file_bytes),
        decreases hits.len() - i,
    {
        if looks_at_date(&hits[i], query, max_file_bytes) {
            assert(date_counts(hits@[i as int], query@, max_file_bytes));
            return false;
        }
        i += 1;
    }
    true
}

/// Applies filters that the Commons search backend cannot express reliably.
pub fn apply_local_filters(
    hits: &mut Vec<FileHit>,
    query: &SearchQuery,
    preferences: &Preferences,
    max_file_bytes: u64,
    now: i128,
)
    requires
        dates_in_reach(old(hits)@, query@, max_file_bytes, now),
    ensures
        final(hits)@ == ordering::kept(
            old(hits)@,
            local_filter(query@, preferences@, max_file_bytes, now),
        ),
{
    let ghost was = hits@;
    let ghost p = local_filter(query@, preferences@, max_file_bytes, now);
    let mut out: Vec<FileHit> = Vec::new();
    let mut i: usize = 0;
    assert(was.take(0) =~= seq![]);
    while i < hits.len()
        invariant
            i <= hits.len(),
            hits@ == was,
            dates_in_reach(was, query@, max_file_bytes, now),
            p == local_filter(query@, preferences@, max_file_bytes, now),
            out@ == ordering::kept(was.take(i as int), p),
        decreases hits.len() - i,
    {
        let date_passes: bool = match &query.date {
            Some(date) => match &hits[i].timestamp {
                Some(t) => if size_and_user_match(&hits[i], query, max_file_bytes) {
                    assert(rfc3339_moment(t@) is Some ==> date_counts(
                        was[i as int],
                        query@,
                        max_file_bytes,
                    ));
                    timestamp_matches(t.as_str(), date, now)
                } else {
                    false
                },
                None => false,
            },
            None => false,
        };
        proof {
            assert(was.take(i + 1).drop_last() =~= was.take(i as int));
            assert(was.take(i + 1).last() == was[i as int]);
        }
        if hit_matches(&hits[i], query, preferences, max_file_bytes, date_passes) {
            out.push(hits[i].clone());
        }
        i += 1;
    }
    assert(was.take(hits.len() as int) =~= was);
    *hits = out;
}

/// No file that passes the filters is larger than the limit, unless the limit is bypassed.
pub proof fn law_filters_keep_limit(
    hits: Seq<FileHit>,
    q: models::QueryView,
    p: models::PreferencesModel,
    max_file_bytes: u64,
    now: i128,
)
    requires
        !q.bypass_telegram_limit,
    ensures
        forall|i: int|
            0 <= i < ordering::kept(hits, local_filter(q, p, max_file_bytes, now)).len() ==> (
            #[trigger] ordering::kept(hits, local_filter(q, p, max_file_bytes, now))[i]).size_bytes
                <= max_file_bytes,
{
    ordering::law_kept(hits, local_filter(q, p, max_file_bytes, now));
}

/// Filtering what was filtered changes nothing.
pub proof fn law_filters_idempotent(hits: Seq<FileHit>, p: spec_fn(FileHit) -> bool)
    ensures
        ordering::kept(ordering::kept(hits, p), p) == ordering::kept(hits, p),
    decreases hits.len(),
{
    if hits.len() > 0 {
        law_filters_idempotent(hits.drop_last(), p);
        let k = ordering::kept(hits.drop_last(), p);
        if p(hits.last()) {
            assert(k.push(hits.last()).drop_last() =~= k);
        }
    }
}

/// The terms in lower case, without empty ones.
pub open spec fn wanted_terms(terms: Seq<Seq<char>>) -> Seq<Seq<char>>
    decreases terms.len(),
{
    if terms.len() == 0 {
        seq![]
    } else if text::lower_text(terms.last()).len() > 0 {
        wanted_terms(terms.drop_last()).push(text::lower_text(terms.last()))
    } else {
        wanted_terms(terms.drop_last())
    }
}

/// True where a text holds every term.
pub open spec fn holds_all(s: Seq<char>, terms: Seq<Seq<char>>) -> bool {
    forall|i: int| 0 <= i < terms.len() ==> text::holds(s, #[trigger] terms[i])
}

/// The text of a file in which terms are looked for.
pub open spec fn haystack(hit: FileHit) -> Seq<char> {
    text::lower_text(hit.title@ + " "@ + hit.file_name@)
}

/// The test that a file's title and name hold every term.
pub open spec fn title_filter(terms: Seq<Seq<char>>) -> spec_fn(FileHit) -> bool {
    |hit: FileHit| holds_all(haystack(hit), wanted_terms(terms))
}

/// Returns true when a text holds every term.
pub fn contains_all(s: &str, terms: &Vec<String>) -> (r: bool)
    ensures
        r == holds_all(s@, text::texts(terms@)),
{
    let ghost all = text::texts(terms@);
    let mut i: usize = 0;
    while i < terms.len()
        invariant
            i <= terms.len(),
            all == text::texts(terms@),
            forall|k: int| 0 <= k < i ==> text::holds(s@, #[trigger] all[k]),
        decreases terms.len() - i,
    {
        if !text::contains(s, terms[i].as_str()) {
            assert(!text::holds(s@, all[i as int]));
            return false;
        }
        i += 1;
    }
    true
}

/// Lower-cases terms and leaves empty ones out.
fn lower_terms(terms: &Vec<String>) -> (r: Vec<String>)
    ensures
        text::texts(r@) == wanted_terms(text::texts(terms@)),
{
    let ghost all = text::texts(terms@);
    let mut out: Vec<String> = Vec::new();
    let mut i: usize = 0;
    assert(all.take(0) =~= seq![]);
    assert(text::texts(out@) =~= seq![]);
    while i < terms.len()
        invariant
            i <= terms.len(),
            all == text::texts(terms@),
            text::texts(out@) == wanted_terms(all.take(i as int)),
        decreases terms.len() - i,
    {
        proof {
            assert(all.take(i + 1).drop_last() =~= all.take(i as int));
            assert(all.take(i + 1).last() == terms@[i as int]@);
        }
        let lower = text::to_lowercase(terms[i].as_str());
        if lower.as_str().unicode_len() > 0 {
            push_text(&mut out, lower);
        }
        i += 1;
    }
    assert(all.take(terms.len() as int) =~= all);
    out
}

/// Keeps only files whose title or filename contains every free-text search term.
pub fn retain_title_terms(hits: &mut Vec<FileHit>, terms: &Vec<String>)
    ensures
        final(hits)@ == ordering::kept(old(hits)@, title_filter(text::texts(terms@))),
{
    let ghost was = hits@;
    let ghost p = title_filter(text::texts(terms@));
    let wanted = lower_terms(terms);
    let mut out: Vec<FileHit> = Vec::new();
    let mut i: usize = 0;
    assert(was.take(0) =~= seq![]);
    while i < hits.len()
        invariant
            i <= hits.len(),
            hits@ == was,
            text::texts(wanted@) == wanted_terms(text::texts(terms@)),
            p == title_filter(text::texts(terms@)),
            out@ == ordering::kept(was.take(i as int), p),
        decreases hits.len() - i,
    {
        proof {
            assert(was.take(i + 1).drop_last() =~= was.take(i as int));
            assert(was.take(i + 1).last() == was[i as int]);
        }
        let names = hits[i].title.clone().concat(" ").concat(hits[i].file_name.as_str());
        if contains_all(text::to_lowercase(names.as_str()).as_str(), &wanted) {
            out.push(hits[i].clone());
        }
        i += 1;
    }
    assert(was.take(hits.len() as int) =~= was);
    *hits = out;
}

/// The key by which results are ordered.
pub open spec fn by_size() -> spec_fn(FileHit) -> int {
    |hit: FileHit| hit.size_bytes as int
}

/// Orders files by size. Files of one size keep their order.
pub fn sort_by_size(hits: &mut Vec<FileHit>)
    ensures
        final(hits)@ == ordering::sorted_by(old(hits)@, by_size()),
{
    let ghost was = hits@;
    let mut out: Vec<FileHit> = Vec::new();
    let mut i: usize = 0;
    assert(was.take(0) =~= seq![]);
    while i < hits.len()
        invariant
            i <= hits.len(),
            hits@ == was,
            out@ == ordering::sorted_by(was.take(i as int), by_size()),
        decreases hits.len() - i,
    {
        let ghost x = was[i as int];
        let ghost k = x.size_bytes as int;
        let mut p: usize = 0;
        while p < out.len() && out[p].size_bytes <= hits[i].size_bytes
            invariant
                i < hits.len(),
                hits@ == was,
                k == was[i as int].size_bytes,
                p <= out.len(),
                ordering::first_greater(out@, by_size(), k, 0) == ordering::first_greater(
                    out@,
                    by_size(),
                    k,
                    p as int,
                ),
            decreases out.len() - p,
        {
            p += 1;
        }
        proof {
            assert(was.take(i + 1).drop_last() =~= was.take(i as int));
            assert(was.take(i + 1).last() == x);
        }
        out.insert(p, hits[i].clone());
        i += 1;
    }
    assert(was.take(hits.len() as int) =~= was);
    *hits = out;
}

/// The first `n` items of a list.
pub open spec fn first_items<T>(s: Seq<T>, n: nat) -> Seq<T> {
    if s.len() > n {
        s.take(n as int)
    } else {
        s
    }
}

/// What a search returns of the files that it found.
pub open spec fn search_result(
    found: Seq<FileHit>,
    q: models::QueryView,
    p: models::PreferencesModel,
    limit: nat,
    max_file_bytes: u64,
    now: i128,
    by_title: bool,
) -> Seq<FileHit> {
    let passed = ordering::kept(found, local_filter(q, p, max_file_bytes, now));
    let titled = if by_title {
        ordering::kept(passed, title_filter(q.terms))
    } else {
        passed
    };
    let sorted = if q.sort_by_size {
        ordering::sorted_by(titled, by_size())
    } else {
        titled
    };
    first_items(sorted, limit)
}

/// Cuts a list to its first items.
fn cut<T>(list: &mut Vec<T>, n: usize)
    ensures
        final(list)@ == first_items(old(list)@, n as nat),
{
    if list.len() > n {
        list.truncate(n);
    }
}

/// Filters, orders and cuts the files that a search found; a search by place filters by title too.
pub fn finish_search(
    found: Vec<FileHit>,
    query: &SearchQuery,
    preferences: &Preferences,
    limit: usize,
    max_file_bytes: u64,
    now: i128,
    by_title: bool,
) -> (r: Vec<FileHit>)
    requires
        dates_in_reach(found@, query@, max_file_bytes, now),
    ensures
        r@ == search_result(
            found@,
            query@,
            preferences@,
            limit as nat,
            max_file_bytes,
            now,
            by_title,
        ),
{
    let mut hits = found;
    apply_local_filters(&mut hits, query, preferences, max_file_bytes, now);
    if by_title {
        retain_title_terms(&mut hits, &query.terms);
    }
    if query.sort_by_size {
        sort_by_size(&mut hits);
    }
    cut(&mut hits, limit);
    hits
}

/// Filters, orders and cuts the files that a search found, where they can be filtered by its date.
pub fn try_finish_search(
    found: Vec<FileHit>,
    query: &SearchQuery,
    preferences: &Preferences,
    limit: usize,
    max_file_bytes: u64,
    now: i128,
    by_title: bool,
) -> (r: Option<Vec<FileHit>>)
    ensures
        match r {
            Some(hits) => dates_in_reach(found@, query@, max_file_bytes, now) && hits@
                == search_result(
                found@,
                query@,
                preferences@,
                limit as nat,
                max_file_bytes,
                now,
                by_title,
            ),
            None => !dates_in_reach(found@, query@, max_file_bytes, now),
        },
{
    if can_filter_dates(&found, query, max_file_bytes, now) {
        Some(finish_search(found, query, preferences, limit, max_file_bytes, now, by_title))
    } else {
        None
    }
}

/// A search returns at most as many files as were asked for.
pub proof fn law_search_result_limit(
    found: Seq<FileHit>,
    q: models::QueryView,
    p: models::PreferencesModel,
    limit: nat,
    max_file_bytes: u64,
    now: i128,
    by_title: bool,
)
    ensures
        search_result(found, q, p, limit, max_file_bytes, now, by_title).len() <= limit,
{
}

/// Every file that a search returns was found, passes the filters, and holds the terms where they
/// are looked for in titles; the files come by size where that was asked for.
pub proof fn law_search_results_pass(
    found: Seq<FileHit>,
    q: models::QueryView,
    p: models::PreferencesModel,
    limit: nat,
    max_file_bytes: u64,
    now: i128,
    by_title: bool,
)
    ensures
        forall|i: int|
            0 <= i < search_result(found, q, p, limit, max_file_bytes, now, by_title).len() ==> {
                let hit = #[trigger] search_result(
                    found,
                    q,
                    p,
                    limit,
                    max_file_bytes,
                    now,
                    by_title,
                )[i];
                &&& found.contains(hit)
                &&& hit_passes(hit, q, p, max_file_bytes, upload_passes(hit, q, now))
                &&& by_title ==> holds_all(haystack(hit), wanted_terms(q.terms))
            },
        q.sort_by_size ==> ordering::in_order(
            search_result(found, q, p, limit, max_file_bytes, now, by_title),
            by_size(),
        ),
{
    let filter = local_filter(q, p, max_file_bytes, now);
    let titles = title_filter(q.terms);
    let passed = ordering::kept(found, filter);
    let titled = if by_title {
        ordering::kept(passed, titles)
    } else {
        passed
    };
    let sorted = if q.sort_by_size {
        ordering::sorted_by(titled, by_size())
    } else {
        titled
    };
    let r = search_result(found, q, p, limit, max_file_bytes, now, by_title);
    ordering::law_kept(found, filter);
    ordering::law_kept(passed, titles);
    ordering::law_sorted_by(titled, by_size());
    assert forall|i: int| 0 <= i < r.len() implies {
        let hit = #[trigger] r[i];
        &&& found.contains(hit)
        &&& hit_passes(hit, q, p, max_file_bytes, upload_passes(hit, q, now))
        &&& by_title ==> holds_all(haystack(hit), wanted_terms(q.terms))
    } by {
        let hit = r[i];
        assert(hit == sorted[i]);
        assert(titled.contains(hit)) by {
            broadcast use vstd::seq_lib::group_to_multiset_ensures;

            assert(sorted.contains(hit));
            assert(sorted.to_multiset().count(hit) > 0);
            assert(titled.to_multiset().count(hit) > 0);
        }
        let j = choose|j: int| 0 <= j < titled.len() && titled[j] == hit;
        assert(passed.contains(titled[j]));
        let k = choose|k: int| 0 <= k < passed.len() && passed[k] == hit;
        assert(filter(passed[k]) && found.contains(passed[k]));
        if by_title {
            assert(titles(titled[j]));
        }
    }
}

/// No file that a search returns is one that Commons lists in a category that the preferences hide.
pub proof fn law_hidden_categories_stay_out(
    found: Seq<FileHit>,
    q: models::QueryView,
    p: models::PreferencesModel,
    limit: nat,
    max_file_bytes: u64,
    now: i128,
    by_title: bool,
)
    ensures
        forall|i: int|
            0 <= i < search_result(found, q, p, limit, max_file_bytes, now, by_title).len()
                ==> !in_hidden_category(
                #[trigger] search_result(found, q, p, limit, max_file_bytes, now, by_title)[i],
                p.blacklist_categories,
            ),
        forall|i: int|
            0 <= i < ordering::kept(found, local_filter(q, p, max_file_bytes, now)).len()
                ==> !in_hidden_category(
                #[trigger] ordering::kept(found, local_filter(q, p, max_file_bytes, now))[i],
                p.blacklist_categories,
            ),
{
    law_search_results_pass(found, q, p, limit, max_file_bytes, now, by_title);
    ordering::law_kept(found, local_filter(q, p, max_file_bytes, now));
}

/// Returns true when a search lists the files of one uploader.
pub fn lists_uploader(query: &SearchQuery) -> (r: bool)
    ensures
        r == (query@.terms.len() == 0 && query@.user is Some && query@.category is None),
{
    query.terms.len() == 0 && query.user.is_some() && query.category.is_none()
}

// Requests.

/// Names and values of a request.
pub open spec fn pairs(v: Seq<(String, String)>) -> Seq<(Seq<char>, Seq<char>)> {
    Seq::new(v.len(), |i: int| (v[i].0@, v[i].1@))
}

/// Adds a name and a value to a request.
pub fn push_pair(list: &mut Vec<(String, String)>, name: &str, value: &str)
    ensures
        pairs(final(list)@) == pairs(old(list)@).push((name@, value@)),
{
    let ghost was = list@;
    list.push((name.to_owned(), value.to_owned()));
    assert(pairs(list@) =~= pairs(was).push((name@, value@)));
}

/// What every request asks for.
pub open spec fn query_pairs() -> Seq<(Seq<char>, Seq<char>)> {
    seq![("action"@, "query"@), ("format"@, "json"@), ("formatversion"@, "2"@)]
}

/// Begins a request.
pub fn begin_request() -> (r: Vec<(String, String)>)
    ensures
        pairs(r@) == query_pairs(),
{
    let mut list: Vec<(String, String)> = Vec::new();
    assert(pairs(list@) =~= seq![]);
    push_pair(&mut list, "action", "query");
    push_pair(&mut list, "format", "json");
    push_pair(&mut list, "formatversion", "2");
    assert(pairs(list@) =~= query_pairs());
    list
}

/// What a request for files asks of each.
pub open spec fn imageinfo_pairs() -> Seq<(Seq<char>, Seq<char>)> {
    seq![
        ("prop"@, "imageinfo"@),
        ("iilimit"@, "20"@),
        ("iiurlwidth"@, TELEGRAM_PREVIEW_THUMB_WIDTH@),
        ("iiprop"@, IMAGEINFO_PROPS@),
    ]
}

/// Adds to a request what is asked of each file.
pub fn push_imageinfo(list: &mut Vec<(String, String)>)
    ensures
        pairs(final(list)@) == pairs(old(list)@) + imageinfo_pairs(),
{
    let ghost was = pairs(list@);
    push_pair(list, "prop", "imageinfo");
    push_pair(list, "iilimit", "20");
    push_pair(list, "iiurlwidth", TELEGRAM_PREVIEW_THUMB_WIDTH);
    push_pair(list, "iiprop", IMAGEINFO_PROPS);
    assert(pairs(list@) =~= was + imageinfo_pairs());
}

/// Builds the request of a search for files.
pub fn search_request(query: &SearchQuery, preferences: &Preferences, max_file_bytes: u64) -> (r:
    Vec<(String, String)>)
    ensures
        pairs(r@) == query_pairs() + seq![
            ("generator"@, "search"@),
            ("gsrnamespace"@, "6"@),
            ("gsrlimit"@, numbers::numeral(SEARCH_CANDIDATE_LIMIT as nat)),
            (
                "gsrsearch"@,
                text::joined(search_clauses(query@, preferences@, Some(max_file_bytes)), " "@),
            ),
        ] + imageinfo_pairs(),
{
    let search = build_cirrus_query(query, preferences, Some(max_file_bytes));
    let mut list = begin_request();
    push_pair(&mut list, "generator", "search");
    push_pair(&mut list, "gsrnamespace", "6");
    push_pair(&mut list, "gsrlimit", numbers::decimal(SEARCH_CANDIDATE_LIMIT).as_str());
    push_pair(&mut list, "gsrsearch", search.as_str());
    assert(pairs(list@) =~= query_pairs() + seq![
        ("generator"@, "search"@),
        ("gsrnamespace"@, "6"@),
        ("gsrlimit"@, numbers::numeral(SEARCH_CANDIDATE_LIMIT as nat)),
        ("gsrsearch"@, search@),
    ]);
    push_imageinfo(&mut list);
    list
}

/// Builds the request for the files nearest to a place, which is given as `latitude|longitude`.
pub fn nearby_request(place: &str) -> (r: Vec<(String, String)>)
    ensures
        pairs(r@) == query_pairs() + seq![
            ("list"@, "geosearch"@),
            ("gsnamespace"@, "6"@),
            ("gscoord"@, place@),
            ("gsradius"@, numbers::numeral(NEARBY_SEARCH_RADIUS_METERS as nat)),
            ("gslimit"@, numbers::numeral(SEARCH_CANDIDATE_LIMIT as nat)),
        ],
{
    let mut list = begin_request();
    push_pair(&mut list, "list", "geosearch");
    push_pair(&mut list, "gsnamespace", "6");
    push_pair(&mut list, "gscoord", place);
    push_pair(&mut list, "gsradius", numbers::decimal(NEARBY_SEARCH_RADIUS_METERS).as_str());
    push_pair(&mut list, "gslimit", numbers::decimal(SEARCH_CANDIDATE_LIMIT).as_str());
    assert(pairs(list@) =~= query_pairs() + seq![
        ("list"@, "geosearch"@),
        ("gsnamespace"@, "6"@),
        ("gscoord"@, place@),
        ("gsradius"@, numbers::numeral(NEARBY_SEARCH_RADIUS_METERS as nat)),
        ("gslimit"@, numbers::numeral(SEARCH_CANDIDATE_LIMIT as nat)),
    ]);
    list
}

/// Builds the request for the categories nearest to a place, which is given as
/// `latitude|longitude`.
pub fn nearby_categories_request(place: &str, limit: usize) -> (r: Vec<(String, String)>)
    ensures
        pairs(r@) == query_pairs() + seq![
            ("list"@, "geosearch"@),
            ("gsnamespace"@, "14"@),
            ("gscoord"@, place@),
            ("gsradius"@, numbers::numeral(NEARBY_SEARCH_RADIUS_METERS as nat)),
            ("gslimit"@, numbers::numeral(limit as nat)),
        ],
{
    let mut list = begin_request();
    push_pair(&mut list, "list", "geosearch");
    push_pair(&mut list, "gsnamespace", "14");
    push_pair(&mut list, "gscoord", place);
    push_pair(&mut list, "gsradius", numbers::decimal(NEARBY_SEARCH_RADIUS_METERS).as_str());
    push_pair(&mut list, "gslimit", numbers::decimal(limit as u64).as_str());
    assert(pairs(list@) =~= query_pairs() + seq![
        ("list"@, "geosearch"@),
        ("gsnamespace"@, "14"@),
        ("gscoord"@, place@),
        ("gsradius"@, numbers::numeral(NEARBY_SEARCH_RADIUS_METERS as nat)),
        ("gslimit"@, numbers::numeral(limit as nat)),
    ]);
    list
}

/// A pair that is there only where its value is.
pub open spec fn opt_pair_seq(name: Seq<char>, value: Option<Seq<char>>) -> Seq<
    (Seq<char>, Seq<char>),
> {
    match value {
        Some(v) => seq![(name, v)],
        None => seq![],
    }
}

/// Builds the request for a page of an uploader's files.
pub fn uploads_request(user: &str, aicontinue: &Option<String>) -> (r: Vec<(String, String)>)
    ensures
        pairs(r@) == query_pairs() + seq![
            ("list"@, "allimages"@),
            ("aisort"@, "timestamp"@),
            ("aidir"@, "older"@),
            ("aiuser"@, user@),
            ("ailimit"@, numbers::numeral(SEARCH_CANDIDATE_LIMIT as nat)),
            ("aiprop"@, "timestamp|user|url|size|dimensions|mime|mediatype|sha1"@),
        ] + opt_pair_seq("aicontinue"@, text::opt_text(*aicontinue)),
{
    let mut list = begin_request();
    push_pair(&mut list, "list", "allimages");
    push_pair(&mut list, "aisort", "timestamp");
    push_pair(&mut list, "aidir", "older");
    push_pair(&mut list, "aiuser", user);
    push_pair(&mut list, "ailimit", numbers::decimal(SEARCH_CANDIDATE_LIMIT).as_str());
    push_pair(&mut list, "aiprop", "timestamp|user|url|size|dimensions|mime|mediatype|sha1");
    let ghost base = query_pairs() + seq![
        ("list"@, "allimages"@),
        ("aisort"@, "timestamp"@),
        ("aidir"@, "older"@),
        ("aiuser"@, user@),
        ("ailimit"@, numbers::numeral(SEARCH_CANDIDATE_LIMIT as nat)),
        ("aiprop"@, "timestamp|user|url|size|dimensions|mime|mediatype|sha1"@),
    ];
    assert(pairs(list@) =~= base);
    if let Some(value) = aicontinue {
        push_pair(&mut list, "aicontinue", value.as_str());
    }
    assert(pairs(list@) =~= base + opt_pair_seq("aicontinue"@, text::opt_text(*aicontinue)));
    list
}

/// Builds the request for user names with a prefix.
pub fn user_prefix_request(user: &str) -> (r: Vec<(String, String)>)
    ensures
        pairs(r@) == query_pairs() + seq![
            ("list"@, "prefixsearch"@),
            ("psnamespace"@, "2"@),
            ("pssearch"@, user@),
            ("pslimit"@, "10"@),
        ],
{
    let mut list = begin_request();
    push_pair(&mut list, "list", "prefixsearch");
    push_pair(&mut list, "psnamespace", "2");
    push_pair(&mut list, "pssearch", user);
    push_pair(&mut list, "pslimit", "10");
    assert(pairs(list@) =~= query_pairs() + seq![
        ("list"@, "prefixsearch"@),
        ("psnamespace"@, "2"@),
        ("pssearch"@, user@),
        ("pslimit"@, "10"@),
    ]);
    list
}

/// Builds the request of a search for categories.
pub fn category_search_request(query: &str, limit: usize) -> (r: Vec<(String, String)>)
    ensures
        pairs(r@) == query_pairs() + seq![
            ("list"@, "search"@),
            ("srnamespace"@, "14"@),
            ("srlimit"@, numbers::numeral(limit as nat)),
            ("srsearch"@, query@),
        ],
{
    let mut list = begin_request();
    push_pair(&mut list, "list", "search");
    push_pair(&mut list, "srnamespace", "14");
    push_pair(&mut list, "srlimit", numbers::decimal(limit as u64).as_str());
    push_pair(&mut list, "srsearch", query);
    assert(pairs(list@) =~= query_pairs() + seq![
        ("list"@, "search"@),
        ("srnamespace"@, "14"@),
        ("srlimit"@, numbers::numeral(limit as nat)),
        ("srsearch"@, query@),
    ]);
    list
}

/// Builds the request for a page of a category's file ids.
pub fn category_count_request(title: &str, cmcontinue: &Option<String>) -> (r: Vec<
    (String, String),
>)
    ensures
        pairs(r@) == query_pairs() + seq![
            ("list"@, "categorymembers"@),
            ("cmtitle"@, title@),
            ("cmtype"@, "file"@),
            ("cmlimit"@, "500"@),
            ("cmprop"@, "ids"@),
        ] + opt_pair_seq("cmcontinue"@, text::opt_text(*cmcontinue)),
{
    let mut list = begin_request();
    push_pair(&mut list, "list", "categorymembers");
    push_pair(&mut list, "cmtitle", title);
    push_pair(&mut list, "cmtype", "file");
    push_pair(&mut list, "cmlimit", "500");
    push_pair(&mut list, "cmprop", "ids");
    let ghost base = query_pairs() + seq![
        ("list"@, "categorymembers"@),
        ("cmtitle"@, title@),
        ("cmtype"@, "file"@),
        ("cmlimit"@, "500"@),
        ("cmprop"@, "ids"@),
    ];
    assert(pairs(list@) =~= base);
    if let Some(value) = cmcontinue {
        push_pair(&mut list, "cmcontinue", value.as_str());
    }
    assert(pairs(list@) =~= base + opt_pair_seq("cmcontinue"@, text::opt_text(*cmcontinue)));
    list
}

/// Builds the request for a category's introduction and Wikidata item.
pub fn category_summary_request(title: &str) -> (r: Vec<(String, String)>)
    ensures
        pairs(r@) == query_pairs() + seq![
            ("titles"@, title@),
            ("redirects"@, "1"@),
            ("prop"@, "extracts|pageprops"@),
            ("exintro"@, "1"@),
            ("explaintext"@, "1"@),
        ],
{
    let mut list = begin_request();
    push_pair(&mut list, "titles", title);
    push_pair(&mut list, "redirects", "1");
    push_pair(&mut list, "prop", "extracts|pageprops");
    push_pair(&mut list, "exintro", "1");
    push_pair(&mut list, "explaintext", "1");
    assert(pairs(list@) =~= query_pairs() + seq![
        ("titles"@, title@),
        ("redirects"@, "1"@),
        ("prop"@, "extracts|pageprops"@),
        ("exintro"@, "1"@),
        ("explaintext"@, "1"@),
    ]);
    list
}

/// Builds the request for the title of a page.
pub fn page_title_request(page_id: u64) -> (r: Vec<(String, String)>)
    ensures
        pairs(r@) == query_pairs() + seq![
            ("pageids"@, numbers::numeral(page_id as nat)),
            ("prop"@, "info"@),
        ],
{
    let mut list = begin_request();
    push_pair(&mut list, "pageids", numbers::decimal(page_id).as_str());
    push_pair(&mut list, "prop", "info");
    assert(pairs(list@) =~= query_pairs() + seq![
        ("pageids"@, numbers::numeral(page_id as nat)),
        ("prop"@, "info"@),
    ]);
    list
}

/// Builds the request for a category's files, of which twice as many are asked for as are wanted.
pub fn category_files_request(title: &str, limit: usize) -> (r: Vec<(String, String)>)
    requires
        2 * limit <= usize::MAX,
    ensures
        pairs(r@) == query_pairs() + seq![
            ("generator"@, "categorymembers"@),
            ("gcmtitle"@, title@),
            ("gcmtype"@, "file"@),
            ("gcmlimit"@, numbers::numeral((2 * limit) as nat)),
        ] + imageinfo_pairs(),
{
    let mut list = begin_request();
    push_pair(&mut list, "generator", "categorymembers");
    push_pair(&mut list, "gcmtitle", title);
    push_pair(&mut list, "gcmtype", "file");
    push_pair(&mut list, "gcmlimit", numbers::decimal((2 * limit) as u64).as_str());
    assert(pairs(list@) =~= query_pairs() + seq![
        ("generator"@, "categorymembers"@),
        ("gcmtitle"@, title@),
        ("gcmtype"@, "file"@),
        ("gcmlimit"@, numbers::numeral((2 * limit) as nat)),
    ]);
    push_imageinfo(&mut list);
    list
}

/// Builds the request for a category's subcategories.
pub fn subcategories_request(title: &str, limit: usize) -> (r: Vec<(String, String)>)
    ensures
        pairs(r@) == query_pairs() + seq![
            ("list"@, "categorymembers"@),
            ("cmtitle"@, title@),
            ("cmtype"@, "subcat"@),
            ("cmlimit"@, numbers::numeral(limit as nat)),
            ("cmprop"@, "ids|title"@),
        ],
{
    let mut list = begin_request();
    push_pair(&mut list, "list", "categorymembers");
    push_pair(&mut list, "cmtitle", title);
    push_pair(&mut list, "cmtype", "subcat");
    push_pair(&mut list, "cmlimit", numbers::decimal(limit as u64).as_str());
    push_pair(&mut list, "cmprop", "ids|title");
    assert(pairs(list@) =~= query_pairs() + seq![
        ("list"@, "categorymembers"@),
        ("cmtitle"@, title@),
        ("cmtype"@, "subcat"@),
        ("cmlimit"@, numbers::numeral(limit as nat)),
        ("cmprop"@, "ids|title"@),
    ]);
    list
}

/// What `url::Url::parse` and the pairs appended to it make of an address.
pub uninterp spec fn address_with_pairs(
    base: Seq<char>,
    list: Seq<(Seq<char>, Seq<char>)>,
) -> Option<Seq<char>>;

/// `url::Url::parse` of an address, with names and values appended to its query by
/// `extend_pairs` of `Url::query_pairs_mut`, which appends them one by one as `append_pair`
/// does. The result depends on the address and the pairs alone; it is nothing where the address
/// does not parse. How an address is parsed and written is not stated.
#[verifier::external_body]
pub(crate) fn append_pairs(base: &str, list: &Vec<(String, String)>) -> (r: Option<String>)
    ensures
        text::opt_text(r) == address_with_pairs(base@, pairs(list@)),
{
    let mut url = url::Url::parse(base).ok()?;
    url.query_pairs_mut().extend_pairs(list);
    Some(String::from(url))
}

/// Writes the address of a request.
pub fn request_url(api_url: &str, list: &Vec<(String, String)>) -> (r: Option<String>)
    ensures
        text::opt_text(r) == address_with_pairs(api_url@, pairs(list@)),
{
    append_pairs(api_url, list)
}

// Listing the files of an uploader.

/// One file of an uploader's list.
#[derive(Debug)]
pub struct AllImage {
    /// Title of the file.
    pub title: String,
    /// Size in bytes.
    pub size: u64,
}

/// The titles of the files that are not too large.
pub open spec fn fitting_titles(images: Seq<AllImage>, bypass: bool, max_file_bytes: u64) -> Seq<
    Seq<char>,
>
    decreases images.len(),
{
    if images.len() == 0 {
        seq![]
    } else if bypass || images.last().size <= max_file_bytes {
        fitting_titles(images.drop_last(), bypass, max_file_bytes).push(images.last().title@)
    } else {
        fitting_titles(images.drop_last(), bypass, max_file_bytes)
    }
}

/// Collects the titles of the files that are not too large.
pub fn uploaded_titles(images: &Vec<AllImage>, query: &SearchQuery, max_file_bytes: u64) -> (r: Vec<
    String,
>)
    ensures
        text::texts(r@) == fitting_titles(images@, query@.bypass_telegram_limit, max_file_bytes),
{
    let mut out: Vec<String> = Vec::new();
    let mut i: usize = 0;
    assert(images@.take(0) =~= seq![]);
    assert(text::texts(out@) =~= seq![]);
    while i < images.len()
        invariant
            i <= images.len(),
            text::texts(out@) == fitting_titles(
                images@.take(i as int),
                query@.bypass_telegram_limit,
                max_file_bytes,
            ),
        decreases images.len() - i,
    {
        proof {
            assert(images@.take(i + 1).drop_last() =~= images@.take(i as int));
            assert(images@.take(i + 1).last() == images@[i as int]);
        }
        if query.bypass_telegram_limit || images[i].size <= max_file_bytes {
            push_text(&mut out, images[i].title.clone());
        }
        i += 1;
    }
    assert(images@.take(images.len() as int) =~= images@);
    out
}

/// The state of listing an uploader's files.
#[derive(Debug)]
pub struct UploadScan {
    /// Files found so far.
    pub hits: Vec<FileHit>,
    /// Where the next page begins.
    pub aicontinue: Option<String>,
    /// Number of pages asked for.
    pub pages_seen: u8,
    /// True when the list is at its end.
    pub done: bool,
}

/// Maximum pages of an uploader's files that a search asks for.
pub const MAX_UPLOAD_PAGES: u8 = 8;

impl UploadScan {
    /// Begins to list.
    pub fn new() -> (r: Self)
        ensures
            r.hits@ == Seq::<FileHit>::empty(),
            r.aicontinue is None,
            r.pages_seen == 0,
            !r.done,
    {
        UploadScan { hits: Vec::new(), aicontinue: None, pages_seen: 0, done: false }
    }

    /// Returns true when another page should be asked for.
    pub fn wants_page(&self, limit: usize) -> (r: bool)
        ensures
            r == (!self.done && self.hits@.len() < limit && self.pages_seen < MAX_UPLOAD_PAGES),
    {
        !self.done && self.hits.len() < limit && self.pages_seen < MAX_UPLOAD_PAGES
    }

    /// Takes a page in: the files loaded for its titles, and where the next page begins.
    pub fn take_page(
        &mut self,
        found: Vec<FileHit>,
        aicontinue: Option<String>,
        query: &SearchQuery,
        preferences: &Preferences,
        limit: usize,
        max_file_bytes: u64,
        now: i128,
    )
        requires
            old(self).pages_seen < MAX_UPLOAD_PAGES,
            dates_in_reach(found@, query@, max_file_bytes, now),
        ensures
            final(self).pages_seen == old(self).pages_seen + 1,
            final(self).hits@ == first_items(
                old(self).hits@ + ordering::kept(
                    found@,
                    local_filter(query@, preferences@, max_file_bytes, now),
                ),
                limit as nat,
            ),
            final(self).done == (aicontinue is None),
            final(self).aicontinue == aicontinue,
    {
        self.pages_seen = self.pages_seen + 1;
        let mut page_hits = found;
        apply_local_filters(&mut page_hits, query, preferences, max_file_bytes, now);
        self.hits.append(&mut page_hits);
        cut(&mut self.hits, limit);
        self.done = aicontinue.is_none();
        self.aicontinue = aicontinue;
    }

    /// Takes a page in, where its files can be filtered by the date of the search. Where they cannot
    /// be, nothing changes.
    pub fn try_take_page(
        &mut self,
        found: Vec<FileHit>,
        aicontinue: Option<String>,
        query: &SearchQuery,
        preferences: &Preferences,
        limit: usize,
        max_file_bytes: u64,
        now: i128,
    ) -> (r: bool)
        requires
            old(self).pages_seen < MAX_UPLOAD_PAGES,
        ensures
            r == dates_in_reach(found@, query@, max_file_bytes, now),
            !r ==> *final(self) == *old(self),
            r ==> {
                &&& final(self).pages_seen == old(self).pages_seen + 1
                &&& final(self).hits@ == first_items(
                    old(self).hits@ + ordering::kept(
                        found@,
                        local_filter(query@, preferences@, max_file_bytes, now),
                    ),
                    limit as nat,
                )
                &&& final(self).done == (aicontinue is None)
                &&& final(self).aicontinue == aicontinue
            },
    {
        if !can_filter_dates(&found, query, max_file_bytes, now) {
            return false;
        }
        self.take_page(found, aicontinue, query, preferences, limit, max_file_bytes, now);
        true
    }

    /// Ends the listing.
    pub fn finish(self, query: &SearchQuery, limit: usize) -> (r: Vec<FileHit>)
        ensures
            r@ == first_items(
                if query@.sort_by_size {
                    ordering::sorted_by(self.hits@, by_size())
                } else {
                    self.hits@
                },
                limit as nat,
            ),
    {
        let mut hits = self.hits;
        if query.sort_by_size {
            sort_by_size(&mut hits);
        }
        cut(&mut hits, limit);
        hits
    }
}

// Categories.

/// The full title of a category.
pub open spec fn category_title(name: Seq<char>) -> Seq<char> {
    "Category:"@ + parser::category_name(name)
}

/// Writes the full title of a category.
pub fn full_category_title(category: &str) -> (r: String)
    ensures
        r@ == category_title(category@),
{
    "Category:".to_owned().concat(parser::normalize_category(category).as_str())
}

/// Makes a category of a page id and a title.
pub fn category_hit(page_id: u64, title: &str) -> (r: CategoryHit)
    ensures
        r.page_id == page_id,
        r.title@ == title@,
        r.display_title@ == text::drop_prefixes(title@, "Category:"@),
        r.file_count is None,
{
    CategoryHit {
        page_id,
        title: title.to_owned(),
        display_title: text::trim_start_text(title, "Category:"),
        file_count: None,
    }
}

/// Builds the key under which the results of a category search are kept.
pub fn category_search_key(query: &str, limit: usize) -> (r: String)
    ensures
        r@ == text::lower_text(text::trimmed(query@)) + ":"@ + numbers::numeral(limit as nat),
{
    text::to_lowercase(text::trim(query).as_str()).concat(":").concat(
        numbers::decimal(limit as u64).as_str(),
    )
}

/// Builds the key under which a category is kept.
pub fn category_info_key(
    title: &str,
    file_limit: usize,
    subcategory_limit: usize,
    max_file_bytes: u64,
) -> (r: String)
    ensures
        r@ == title@ + ":"@ + numbers::numeral(file_limit as nat) + ":"@ + numbers::numeral(
            subcategory_limit as nat,
        ) + ":"@ + numbers::numeral(max_file_bytes as nat),
{
    title.to_owned().concat(":").concat(numbers::decimal(file_limit as u64).as_str()).concat(
        ":",
    ).concat(numbers::decimal(subcategory_limit as u64).as_str()).concat(":").concat(
        numbers::decimal(max_file_bytes).as_str(),
    )
}

/// The text of a page property.
pub open spec fn property_text(props: Seq<MetadataEntry>, name: Seq<char>) -> Option<Seq<char>>
    decreases props.len(),
{
    if props.len() == 0 {
        None
    } else if props[0].name@ == name {
        match props[0].value {
            Field::Text(t) => Some(t@),
            _ => None,
        }
    } else {
        property_text(props.skip(1), name)
    }
}

/// Extracts the text of a page property.
fn page_property(props: &Vec<MetadataEntry>, name: &str) -> (r: Option<String>)
    ensures
        text::opt_text(r) == property_text(props@, name@),
{
    let mut i: usize = 0;
    assert(props@.skip(0) =~= props@);
    while i < props.len()
        invariant
            i <= props.len(),
            property_text(props@, name@) == property_text(props@.skip(i as int), name@),
        decreases props.len() - i,
    {
        proof {
            assert(props@.skip(i as int)[0] == props@[i as int]);
            assert(props@.skip(i as int).skip(1) =~= props@.skip(i + 1));
        }
        if text::same(props[i].name.as_str(), name) {
            return match &props[i].value {
                Field::Text(t) => Some(t.clone()),
                _ => None,
            };
        }
        i += 1;
    }
    None
}

/// Makes the summary of a category from its page, where there is one.
pub fn summary_of_page(title: &str, page: Option<&ApiPage>) -> (r: CategoryInfo)
    ensures
        r.page_id == (match page {
            Some(p) => metadata::or_zero(p.pageid),
            None => 0,
        }),
        r.title@ == (if page is Some && (page->0).title is Some {
            ((page->0).title->0)@
        } else {
            title@
        }),
        text::opt_text(r.description) == (match page {
            Some(p) => match p.extract {
                Some(t) => if text::trimmed(t@).len() > 0 {
                    Some(t@)
                } else {
                    None
                },
                None => None,
            },
            None => None,
        }),
        text::opt_text(r.wikidata_item) == (match page {
            Some(p) => property_text(p.pageprops@, "wikibase_item"@),
            None => None,
        }),
        r.wikidata_claims_html is None,
        r.files@ == Seq::<FileHit>::empty(),
        r.subcategories@ == Seq::<CategoryHit>::empty(),
{
    let (page_id, own_title, description, wikidata_item) = match page {
        Some(p) => {
            let page_id: u64 = match p.pageid {
                Some(n) => n,
                None => 0,
            };
            let own_title = match &p.title {
                Some(t) => t.clone(),
                None => title.to_owned(),
            };
            let description = match &p.extract {
                Some(t) => if text::blank(t.as_str()) {
                    None
                } else {
                    Some(t.clone())
                },
                None => None,
            };
            (page_id, own_title, description, page_property(&p.pageprops, "wikibase_item"))
        },
        None => (0, title.to_owned(), None, None),
    };
    CategoryInfo {
        page_id,
        title: own_title,
        description,
        wikidata_item,
        wikidata_claims_html: None,
        files: Vec::new(),
        subcategories: Vec::new(),
    }
}

/// The test that a file is not too large.
pub open spec fn fits(max_file_bytes: u64) -> spec_fn(FileHit) -> bool {
    |hit: FileHit| hit.size_bytes <= max_file_bytes
}

/// Keeps the files of a category that are not too large, up to a number.
pub fn category_files(found: &Vec<FileHit>, limit: usize, max_file_bytes: u64) -> (r: Vec<FileHit>)
    ensures
        r@ == first_items(ordering::kept(found@, fits(max_file_bytes)), limit as nat),
{
    let mut out: Vec<FileHit> = Vec::new();
    let mut i: usize = 0;
    assert(found@.take(0) =~= seq![]);
    while i < found.len()
        invariant
            i <= found.len(),
            out@ == ordering::kept(found@.take(i as int), fits(max_file_bytes)),
        decreases found.len() - i,
    {
        proof {
            assert(found@.take(i + 1).drop_last() =~= found@.take(i as int));
            assert(found@.take(i + 1).last() == found@[i as int]);
        }
        if found[i].size_bytes <= max_file_bytes {
            out.push(found[i].clone());
        }
        i += 1;
    }
    assert(found@.take(found.len() as int) =~= found@);
    cut(&mut out, limit);
    out
}

} // verus!
