//! File metadata as the MediaWiki API gives it, and the file model that is made of it.

use vstd::prelude::*;
use vstd::string::*;
use crate::escaping;
use crate::models::{Coordinates, FileHit, NumberText};
use crate::numbers;
use crate::text;

verus! {

/// A value of a JSON document.
#[derive(Debug)]
pub enum Field {
    /// A text.
    Text(String),
    /// A number.
    Number(NumberText),
    /// A truth value.
    Flag(bool),
    /// Anything else, as JSON writes it.
    Other(String),
}

/// A named value of image metadata.
#[derive(Debug)]
pub struct MetadataEntry {
    /// Name of the value.
    pub name: String,
    /// The value.
    pub value: Field,
}

/// A named value of extended metadata.
#[derive(Debug)]
pub struct ExtMetadataEntry {
    /// Name of the value.
    pub name: String,
    /// The value, if there is one.
    pub value: Option<Field>,
}

/// One version of a file.
#[derive(Debug)]
pub struct ApiImageInfo {
    /// Upload time.
    pub timestamp: Option<String>,
    /// Uploader.
    pub user: Option<String>,
    /// Original file URL.
    pub url: Option<String>,
    /// Description page URL.
    pub descriptionurl: Option<String>,
    /// Thumbnail URL.
    pub thumburl: Option<String>,
    /// Size in bytes.
    pub size: Option<u64>,
    /// Width in pixels.
    pub width: Option<u64>,
    /// Height in pixels.
    pub height: Option<u64>,
    /// SHA-1 hash.
    pub sha1: Option<String>,
    /// MIME type.
    pub mime: Option<String>,
    /// MediaWiki media type.
    pub mediatype: Option<String>,
    /// Duration in seconds.
    pub duration: Option<NumberText>,
    /// Metadata of the file.
    pub metadata: Vec<MetadataEntry>,
    /// Metadata in the common form.
    pub commonmetadata: Vec<MetadataEntry>,
    /// Extended metadata.
    pub extmetadata: Vec<ExtMetadataEntry>,
}

/// A page of a query.
#[derive(Debug)]
pub struct ApiPage {
    /// Page id.
    pub pageid: Option<u64>,
    /// Page title.
    pub title: Option<String>,
    /// Versions of the file, the latest first.
    pub imageinfo: Vec<ApiImageInfo>,
    /// Plain-text introduction.
    pub extract: Option<String>,
    /// Page properties.
    pub pageprops: Vec<MetadataEntry>,
}

// Markup.

/// A text from `i` on without its tags: from `<` to the next `>`, with something between.
pub open spec fn untagged_from(s: Seq<char>, i: int) -> Seq<char>
    decreases s.len() - i,
{
    if i < 0 || i >= s.len() {
        seq![]
    } else {
        let e = text::position(s, '>', i + 1);
        if s[i] == '<' && i + 1 < e < s.len() {
            untagged_from(s, e + 1)
        } else {
            seq![s[i]] + untagged_from(s, i + 1)
        }
    }
}

/// Removes HTML tags.
pub fn strip_tags(value: &str) -> (r: String)
    ensures
        r@ == untagged_from(value@, 0),
{
    let v = text::chars_of(value);
    let mut out = String::new();
    let mut i: usize = 0;
    while i < v.len()
        invariant
            i <= v.len(),
            v@ == value@,
            untagged_from(value@, 0) == out@ + untagged_from(value@, i as int),
        decreases v.len() - i,
    {
        let e: usize = text::find_char(&v, '>', i + 1);
        if v[i] == '<' && i + 1 < e && e < v.len() {
            i = e + 1;
        } else {
            let ghost before = out@;
            out.push(v[i]);
            proof {
                let rest = untagged_from(value@, i + 1);
                assert(before + (seq![value@[i as int]] + rest) =~= before.push(value@[i as int])
                    + rest);
            }
            i += 1;
        }
    }
    assert(out@ + seq![] =~= out@);
    out
}

/// An HTML fragment as plain text.
pub open spec fn plain_text(s: Seq<char>) -> Seq<char> {
    text::trimmed(escaping::html_decoded(untagged_from(s, 0)))
}

/// Strips small HTML fragments returned by Commons extmetadata.
pub fn strip_html(value: &str) -> (r: String)
    ensures
        r@ == plain_text(value@),
{
    text::trim(escaping::decode_html_entities(strip_tags(value).as_str()).as_str())
}

// Values.

/// A truth value as JSON writes it.
pub open spec fn flag_word(b: bool) -> Seq<char> {
    if b {
        "true"@
    } else {
        "false"@
    }
}

/// Writes a truth value as JSON does.
fn write_flag(b: bool) -> (r: String)
    ensures
        r@ == flag_word(b),
{
    if b {
        "true".to_owned()
    } else {
        "false".to_owned()
    }
}

/// The text of a value: a text itself, and anything else as JSON writes it.
pub open spec fn field_text(f: Field) -> Seq<char> {
    match f {
        Field::Text(t) => t@,
        Field::Number(n) => n.written@,
        Field::Flag(b) => flag_word(b),
        Field::Other(t) => t@,
    }
}

/// The first entry with a name, in any case.
pub open spec fn find_entry(list: Seq<MetadataEntry>, name: Seq<char>) -> Option<Field>
    decreases list.len(),
{
    if list.len() == 0 {
        None
    } else if text::lowered(list[0].name@) == text::lowered(name) {
        Some(list[0].value)
    } else {
        find_entry(list.skip(1), name)
    }
}

/// Finds the first entry with a name, in any case.
fn entry_named<'a>(list: &'a Vec<MetadataEntry>, name: &str) -> (r: Option<&'a Field>)
    ensures
        match (r, find_entry(list@, name@)) {
            (Some(a), Some(b)) => *a == b,
            (None, None) => true,
            _ => false,
        },
{
    let mut i: usize = 0;
    assert(list@.skip(0) =~= list@);
    while i < list.len()
        invariant
            i <= list.len(),
            find_entry(list@, name@) == find_entry(list@.skip(i as int), name@),
        decreases list.len() - i,
    {
        proof {
            assert(list@.skip(i as int)[0] == list@[i as int]);
            assert(list@.skip(i as int).skip(1) =~= list@.skip(i + 1));
        }
        if text::same_ignoring_case(list[i].name.as_str(), name) {
            return Some(&list[i].value);
        }
        i += 1;
    }
    None
}

/// The extended metadata with a name.
pub open spec fn find_ext(list: Seq<ExtMetadataEntry>, name: Seq<char>) -> Option<Seq<char>>
    decreases list.len(),
{
    if list.len() == 0 {
        None
    } else if list[0].name@ == name {
        match list[0].value {
            Some(f) => Some(field_text(f)),
            None => None,
        }
    } else {
        find_ext(list.skip(1), name)
    }
}

/// Extracts an extmetadata string.
pub fn metadata_value(list: &Vec<ExtMetadataEntry>, name: &str) -> (r: Option<String>)
    ensures
        text::opt_text(r) == find_ext(list@, name@),
{
    let mut i: usize = 0;
    assert(list@.skip(0) =~= list@);
    while i < list.len()
        invariant
            i <= list.len(),
            find_ext(list@, name@) == find_ext(list@.skip(i as int), name@),
        decreases list.len() - i,
    {
        proof {
            assert(list@.skip(i as int)[0] == list@[i as int]);
            assert(list@.skip(i as int).skip(1) =~= list@.skip(i + 1));
        }
        if text::same(list[i].name.as_str(), name) {
            return match &list[i].value {
                Some(Field::Text(t)) => Some(t.clone()),
                Some(Field::Number(n)) => Some(n.written.clone()),
                Some(Field::Flag(b)) => Some(write_flag(*b)),
                Some(Field::Other(t)) => Some(t.clone()),
                None => None,
            };
        }
        i += 1;
    }
    None
}

/// A text, unless it is empty.
pub open spec fn unless_empty(s: Seq<char>) -> Option<Seq<char>> {
    if s.len() > 0 {
        Some(s)
    } else {
        None
    }
}

/// The text of an image metadata value: plain text, a number or a truth value, unless empty.
pub open spec fn entry_text(f: Option<Field>) -> Option<Seq<char>> {
    match f {
        Some(Field::Text(t)) => unless_empty(text::trimmed(plain_text(t@))),
        Some(Field::Number(n)) => unless_empty(text::trimmed(n.written@)),
        Some(Field::Flag(b)) => unless_empty(text::trimmed(flag_word(b))),
        _ => None,
    }
}

/// Extracts a string-like image metadata field.
pub fn metadata_string(metadata: &Vec<MetadataEntry>, name: &str) -> (r: Option<String>)
    ensures
        text::opt_text(r) == entry_text(find_entry(metadata@, name@)),
{
    let shown = match entry_named(metadata, name) {
        Some(Field::Text(t)) => strip_html(t.as_str()),
        Some(Field::Number(n)) => n.written.clone(),
        Some(Field::Flag(b)) => write_flag(*b),
        _ => return None,
    };
    let trimmed = text::trim(shown.as_str());
    if trimmed.as_str().unicode_len() > 0 {
        Some(trimmed)
    } else {
        None
    }
}

/// The first of two optional texts that is there.
pub open spec fn either(a: Option<Seq<char>>, b: Option<Seq<char>>) -> Option<Seq<char>> {
    if a is Some {
        a
    } else {
        b
    }
}

/// The text of a value in the file's own metadata, or else in the common metadata.
pub open spec fn first_text(
    metadata: Seq<MetadataEntry>,
    commonmetadata: Seq<MetadataEntry>,
    name: Seq<char>,
) -> Option<Seq<char>> {
    either(entry_text(find_entry(metadata, name)), entry_text(find_entry(commonmetadata, name)))
}

/// Extracts the first string-like metadata value from primary or common metadata.
pub fn first_metadata_string(
    metadata: &Vec<MetadataEntry>,
    commonmetadata: &Vec<MetadataEntry>,
    name: &str,
) -> (r: Option<String>)
    ensures
        text::opt_text(r) == first_text(metadata@, commonmetadata@, name@),
{
    match metadata_string(metadata, name) {
        Some(t) => Some(t),
        None => metadata_string(commonmetadata, name),
    }
}

/// The number that a value holds.
pub open spec fn entry_number(f: Option<Field>) -> Option<NumberText> {
    match f {
        Some(Field::Number(n)) => Some(n),
        _ => None,
    }
}

/// Extracts a numeric image metadata field.
fn metadata_number<'a>(metadata: &'a Vec<MetadataEntry>, name: &str) -> (r: Option<&'a NumberText>)
    ensures
        match (r, entry_number(find_entry(metadata@, name@))) {
            (Some(a), Some(b)) => *a == b,
            (None, None) => true,
            _ => false,
        },
{
    match entry_named(metadata, name) {
        Some(Field::Number(n)) => Some(n),
        _ => None,
    }
}

/// The first number under one of three names.
pub open spec fn number_named(
    metadata: Seq<MetadataEntry>,
    a: Seq<char>,
    b: Seq<char>,
    c: Seq<char>,
) -> Option<NumberText> {
    if entry_number(find_entry(metadata, a)) is Some {
        entry_number(find_entry(metadata, a))
    } else if entry_number(find_entry(metadata, b)) is Some {
        entry_number(find_entry(metadata, b))
    } else {
        entry_number(find_entry(metadata, c))
    }
}

/// Finds the first number under one of three names.
fn find_number(metadata: &Vec<MetadataEntry>, a: &str, b: &str, c: &str) -> (r: Option<NumberText>)
    ensures
        r == number_named(metadata@, a@, b@, c@),
{
    if let Some(n) = metadata_number(metadata, a) {
        return Some(n.clone());
    }
    if let Some(n) = metadata_number(metadata, b) {
        return Some(n.clone());
    }
    match metadata_number(metadata, c) {
        Some(n) => Some(n.clone()),
        None => None,
    }
}

/// The place that metadata holds.
pub open spec fn place_of(metadata: Seq<MetadataEntry>) -> Option<Coordinates> {
    let lat = number_named(metadata, "GPSLatitude"@, "Latitude"@, "lat"@);
    let lon = number_named(metadata, "GPSLongitude"@, "Longitude"@, "lon"@);
    if lat is Some && lon is Some {
        Some(Coordinates { lat: lat->0, lon: lon->0 })
    } else {
        None
    }
}

/// Parses coordinate fields from MediaWiki metadata.
pub fn parse_coordinates(metadata: &Vec<MetadataEntry>) -> (r: Option<Coordinates>)
    ensures
        r == place_of(metadata@),
{
    let lat = match find_number(metadata, "GPSLatitude", "Latitude", "lat") {
        Some(t) => t,
        None => return None,
    };
    match find_number(metadata, "GPSLongitude", "Longitude", "lon") {
        Some(lon) => Some(Coordinates { lat, lon }),
        None => None,
    }
}

/// True of an entry that says that a file moves: animated, or of more than one frame.
pub open spec fn says_animated(e: MetadataEntry) -> bool {
    let name = text::lowered(e.name@);
    if name == "animated"@ {
        e.value == Field::Flag(true)
    } else if name == "framecount"@ {
        match e.value {
            Field::Number(n) => n.whole is Some && n.whole->0 > 1,
            _ => false,
        }
    } else {
        false
    }
}

/// True where an entry says that the file moves.
pub open spec fn animated(metadata: Seq<MetadataEntry>) -> bool {
    exists|i: int| 0 <= i < metadata.len() && says_animated(#[trigger] metadata[i])
}

/// Parses GIF/WebP animation fields from MediaWiki metadata.
pub fn parse_animation_flag(metadata: &Vec<MetadataEntry>) -> (r: bool)
    ensures
        r == animated(metadata@),
{
    let mut i: usize = 0;
    while i < metadata.len()
        invariant
            i <= metadata.len(),
            forall|k: int| 0 <= k < i ==> !says_animated(#[trigger] metadata@[k]),
        decreases metadata.len() - i,
    {
        let name = text::ascii_lowercase(metadata[i].name.as_str());
        let moves: bool = if text::same(name.as_str(), "animated") {
            match &metadata[i].value {
                Field::Flag(b) => *b,
                _ => false,
            }
        } else if text::same(name.as_str(), "framecount") {
            match &metadata[i].value {
                Field::Number(n) => match n.whole {
                    Some(count) => count > 1,
                    None => false,
                },
                _ => false,
            }
        } else {
            false
        };
        if moves {
            assert(says_animated(metadata@[i as int]));
            return true;
        }
        i += 1;
    }
    false
}

// Camera settings.

/// A number with its decimals, without trailing zeros and without a trailing point.
pub open spec fn short_decimals(s: Seq<char>) -> Seq<char> {
    let t = if s.contains('.') {
        text::drop_trailing(s, text::just('0'))
    } else {
        s
    };
    if t.len() > 0 && t.last() == '.' {
        t.drop_last()
    } else {
        t
    }
}

/// Formats a decimal, given with all its fractional digits, without needless ones.
pub fn format_decimal(written: &str) -> (r: String)
    ensures
        r@ == short_decimals(written@),
{
    let t = if text::contains_char(written, '.') {
        text::trim_end_char(written, '0')
    } else {
        written.to_owned()
    };
    let v = text::chars_of(t.as_str());
    if v.len() > 0 && v[v.len() - 1] == '.' {
        assert(t@.drop_last() =~= t@.subrange(0, t@.len() - 1));
        text::substring(&v, 0, v.len() - 1)
    } else {
        t
    }
}

/// A number with a comma before each group of three digits.
pub open spec fn grouped(s: Seq<char>) -> Seq<char>
    decreases s.len(),
{
    if s.len() <= 3 {
        s
    } else {
        grouped(s.take(s.len() - 3)) + ","@ + s.skip(s.len() - 3)
    }
}

/// Groups the first `to` characters.
fn group(v: &Vec<char>, to: usize) -> (r: String)
    requires
        to <= v.len(),
    ensures
        r@ == grouped(v@.take(to as int)),
    decreases to,
{
    let ghost s = v@.take(to as int);
    if to <= 3 {
        assert(s =~= v@.subrange(0, to as int));
        text::substring(v, 0, to)
    } else {
        proof {
            assert(s.take(to - 3) =~= v@.take(to - 3));
            assert(s.skip(to - 3) =~= v@.subrange(to - 3, to as int));
        }
        group(v, to - 3).concat(",").concat(text::substring(v, to - 3, to).as_str())
    }
}

/// Formats a positive integer with comma group separators.
pub fn format_integer_grouped(value: u64) -> (r: String)
    ensures
        r@ == grouped(numbers::numeral(value as nat)),
{
    let v = text::chars_of(numbers::decimal(value).as_str());
    assert(v@.take(v.len() as int) =~= v@);
    group(&v, v.len())
}

/// What a setting reads as: a quotient or a decimal number, written with the decimals that the
/// setting is shown with.
#[derive(Debug)]
pub enum Reading {
    /// A quotient, and whether its denominator is one.
    Quotient(String, bool),
    /// A decimal number.
    Decimal(String),
    /// No number.
    Unreadable,
}

/// An exposure time as it is shown.
pub open spec fn shown_exposure(s: Seq<char>, reading: Reading) -> Option<Seq<char>> {
    let t = text::trimmed(s);
    if t.len() == 0 {
        None
    } else if text::holds(text::lowered(t), "sec"@) {
        Some(t)
    } else {
        match reading {
            Reading::Quotient(d, true) => Some(short_decimals(d@) + " sec"@),
            Reading::Quotient(d, false) => Some(t + " sec ("@ + short_decimals(d@) + ")"@),
            Reading::Decimal(d) => Some(short_decimals(d@) + " sec"@),
            Reading::Unreadable => Some(t + " sec"@),
        }
    }
}

/// Formats EXIF exposure time for display, given its reading with three decimals.
pub fn format_exposure_time(value: &str, reading: &Reading) -> (r: Option<String>)
    ensures
        text::opt_text(r) == shown_exposure(value@, *reading),
{
    let t = text::trim(value);
    if t.as_str().unicode_len() == 0 {
        return None;
    }
    if text::contains(text::ascii_lowercase(t.as_str()).as_str(), "sec") {
        return Some(t);
    }
    match reading {
        Reading::Quotient(d, whole) => if *whole {
            Some(format_decimal(d.as_str()).concat(" sec"))
        } else {
            Some(t.concat(" sec (").concat(format_decimal(d.as_str()).as_str()).concat(")"))
        },
        Reading::Decimal(d) => Some(format_decimal(d.as_str()).concat(" sec")),
        Reading::Unreadable => Some(t.concat(" sec")),
    }
}

/// The decimals of a reading, where it is a number.
pub open spec fn reading_decimals(reading: Reading) -> Option<Seq<char>> {
    match reading {
        Reading::Quotient(d, _) => Some(short_decimals(d@)),
        Reading::Decimal(d) => Some(short_decimals(d@)),
        Reading::Unreadable => None,
    }
}

/// Writes the decimals of a reading, where it is a number.
fn write_reading(reading: &Reading) -> (r: Option<String>)
    ensures
        text::opt_text(r) == reading_decimals(*reading),
{
    match reading {
        Reading::Quotient(d, _) => Some(format_decimal(d.as_str())),
        Reading::Decimal(d) => Some(format_decimal(d.as_str())),
        Reading::Unreadable => None,
    }
}

/// An F-number as it is shown.
pub open spec fn shown_f_number(s: Seq<char>, reading: Reading) -> Option<Seq<char>> {
    let t = text::trimmed(s);
    if t.len() == 0 {
        None
    } else if text::begins(text::lowered(t), "f/"@) {
        Some(t)
    } else {
        match reading_decimals(reading) {
            Some(d) => Some("f/"@ + d),
            None => Some("f/"@ + t),
        }
    }
}

/// Formats EXIF F-number for display, given its reading with two decimals.
pub fn format_f_number(value: &str, reading: &Reading) -> (r: Option<String>)
    ensures
        text::opt_text(r) == shown_f_number(value@, *reading),
{
    let t = text::trim(value);
    if t.as_str().unicode_len() == 0 {
        return None;
    }
    if text::starts_with(text::ascii_lowercase(t.as_str()).as_str(), "f/") {
        return Some(t);
    }
    match write_reading(reading) {
        Some(d) => Some("f/".to_owned().concat(d.as_str())),
        None => Some("f/".to_owned().concat(t.as_str())),
    }
}

/// An ISO speed as it is shown.
pub open spec fn shown_iso(s: Seq<char>, whole: Option<u64>) -> Option<Seq<char>> {
    let t = text::trimmed(s);
    if t.len() == 0 {
        None
    } else {
        match whole {
            Some(n) => Some(grouped(numbers::numeral(n as nat))),
            None => Some(t),
        }
    }
}

/// Formats EXIF ISO speed rating for display, given the whole number nearest to it, where it is
/// a number and not negative.
pub fn format_iso_speed(value: &str, whole: Option<u64>) -> (r: Option<String>)
    ensures
        text::opt_text(r) == shown_iso(value@, whole),
{
    let t = text::trim(value);
    if t.as_str().unicode_len() == 0 {
        return None;
    }
    match whole {
        Some(n) => Some(format_integer_grouped(n)),
        None => Some(t),
    }
}

/// A focal length as it is shown.
pub open spec fn shown_focal_length(s: Seq<char>, reading: Reading) -> Option<Seq<char>> {
    let t = text::trimmed(s);
    if t.len() == 0 {
        None
    } else if text::holds(text::lowered(t), "mm"@) {
        Some(t)
    } else {
        match reading_decimals(reading) {
            Some(d) => Some(d + " mm"@),
            None => Some(t + " mm"@),
        }
    }
}

/// Formats EXIF focal length for display, given its reading with one decimal.
pub fn format_focal_length(value: &str, reading: &Reading) -> (r: Option<String>)
    ensures
        text::opt_text(r) == shown_focal_length(value@, *reading),
{
    let t = text::trim(value);
    if t.as_str().unicode_len() == 0 {
        return None;
    }
    if text::contains(text::ascii_lowercase(t.as_str()).as_str(), "mm") {
        return Some(t);
    }
    match write_reading(reading) {
        Some(d) => Some(d.concat(" mm")),
        None => Some(t.concat(" mm")),
    }
}

/// The camera settings of a file, as the metadata writes them.
#[derive(Debug)]
pub struct ExifTexts {
    /// Exposure time.
    pub exposure_time: Option<String>,
    /// F-number.
    pub f_number: Option<String>,
    /// ISO speed.
    pub iso_speed: Option<String>,
    /// Focal length.
    pub focal_length: Option<String>,
}

/// Collects the camera settings of a file.
pub fn exif_texts(info: &ApiImageInfo) -> (r: ExifTexts)
    ensures
        text::opt_text(r.exposure_time) == first_text(
            info.metadata@,
            info.commonmetadata@,
            "ExposureTime"@,
        ),
        text::opt_text(r.f_number) == first_text(
            info.metadata@,
            info.commonmetadata@,
            "FNumber"@,
        ),
        text::opt_text(r.iso_speed) == first_text(
            info.metadata@,
            info.commonmetadata@,
            "ISOSpeedRatings"@,
        ),
        text::opt_text(r.focal_length) == first_text(
            info.metadata@,
            info.commonmetadata@,
            "FocalLength"@,
        ),
{
    ExifTexts {
        exposure_time: first_metadata_string(&info.metadata, &info.commonmetadata, "ExposureTime"),
        f_number: first_metadata_string(&info.metadata, &info.commonmetadata, "FNumber"),
        iso_speed: first_metadata_string(&info.metadata, &info.commonmetadata, "ISOSpeedRatings"),
        focal_length: first_metadata_string(&info.metadata, &info.commonmetadata, "FocalLength"),
    }
}

/// What the camera settings of a file read as.
#[derive(Debug)]
pub struct ExifReadings {
    /// Exposure time, with three decimals.
    pub exposure_time: Reading,
    /// F-number, with two decimals.
    pub f_number: Reading,
    /// The whole number nearest to the ISO speed, where it is a number and not negative.
    pub iso_speed: Option<u64>,
    /// Focal length, with one decimal.
    pub focal_length: Reading,
}

/// The plain text of extended metadata.
pub open spec fn ext_plain(list: Seq<ExtMetadataEntry>, name: Seq<char>) -> Option<Seq<char>> {
    match find_ext(list, name) {
        Some(t) => Some(plain_text(t)),
        None => None,
    }
}

/// Extracts the plain text of extended metadata.
fn ext_text(list: &Vec<ExtMetadataEntry>, name: &str) -> (r: Option<String>)
    ensures
        text::opt_text(r) == ext_plain(list@, name@),
{
    match metadata_value(list, name) {
        Some(t) => Some(strip_html(t.as_str())),
        None => None,
    }
}

/// A number, or zero where there is none.
pub open spec fn or_zero(n: Option<u64>) -> u64 {
    match n {
        Some(x) => x,
        None => 0,
    }
}

/// True of the file that a version of a page makes.
pub open spec fn hit_of(
    hit: FileHit,
    page_id: u64,
    title: Seq<char>,
    info: ApiImageInfo,
    readings: ExifReadings,
    version_count: Option<usize>,
) -> bool {
    let ext = info.extmetadata@;
    let own = info.metadata@;
    let common = info.commonmetadata@;
    &&& hit.page_id == page_id
    &&& hit.title@ == title
    &&& hit.file_name@ == text::drop_prefixes(title, "File:"@)
    &&& hit.size_bytes == or_zero(info.size)
    &&& hit.width == info.width
    &&& hit.height == info.height
    &&& hit.mime == info.mime
    &&& hit.media_type == info.mediatype
    &&& hit.url == info.url
    &&& hit.description_url == info.descriptionurl
    &&& hit.thumb_url == info.thumburl
    &&& hit.uploader == info.user
    &&& hit.timestamp == info.timestamp
    &&& hit.sha1 == info.sha1
    &&& hit.version_count == version_count
    &&& text::opt_text(hit.license_short_name) == find_ext(ext, "LicenseShortName"@)
    &&& text::opt_text(hit.license_url) == find_ext(ext, "LicenseUrl"@)
    &&& text::opt_text(hit.categories_text) == find_ext(ext, "Categories"@)
    &&& text::opt_text(hit.caption_text) == ext_plain(ext, "ObjectName"@)
    &&& text::opt_text(hit.description_text) == ext_plain(ext, "ImageDescription"@)
    &&& text::opt_text(hit.artist) == ext_plain(ext, "Artist"@)
    &&& text::opt_text(hit.date_text) == either(
        ext_plain(ext, "DateTimeOriginal"@),
        ext_plain(ext, "DateTime"@),
    )
    &&& text::opt_text(hit.camera_model) == first_text(own, common, "Model"@)
    &&& text::opt_text(hit.exposure_time) == (match first_text(own, common, "ExposureTime"@) {
        Some(t) => shown_exposure(t, readings.exposure_time),
        None => None,
    })
    &&& text::opt_text(hit.f_number) == (match first_text(own, common, "FNumber"@) {
        Some(t) => shown_f_number(t, readings.f_number),
        None => None,
    })
    &&& text::opt_text(hit.iso_speed) == (match first_text(own, common, "ISOSpeedRatings"@) {
        Some(t) => shown_iso(t, readings.iso_speed),
        None => None,
    })
    &&& text::opt_text(hit.focal_length) == (match first_text(own, common, "FocalLength"@) {
        Some(t) => shown_focal_length(t, readings.focal_length),
        None => None,
    })
    &&& hit.coordinates == (if place_of(own) is Some {
        place_of(own)
    } else {
        place_of(common)
    })
    &&& hit.animated == animated(own)
    &&& hit.duration_seconds == (if info.duration is Some {
        info.duration
    } else {
        entry_number(find_entry(own, "duration"@))
    })
}

/// Converts a single `imageinfo` object into the internal file model.
pub fn imageinfo_to_hit(
    page_id: u64,
    title: &str,
    info: &ApiImageInfo,
    readings: &ExifReadings,
    version_count: Option<usize>,
) -> (r: FileHit)
    ensures
        hit_of(r, page_id, title@, *info, *readings, version_count),
{
    let texts = exif_texts(info);
    let date_text = match ext_text(&info.extmetadata, "DateTimeOriginal") {
        Some(t) => Some(t),
        None => ext_text(&info.extmetadata, "DateTime"),
    };
    let coordinates = match parse_coordinates(&info.metadata) {
        Some(c) => Some(c),
        None => parse_coordinates(&info.commonmetadata),
    };
    let duration_seconds = match &info.duration {
        Some(d) => Some(d.clone()),
        None => match metadata_number(&info.metadata, "duration") {
            Some(n) => Some(n.clone()),
            None => None,
        },
    };
    FileHit {
        page_id,
        title: title.to_owned(),
        file_name: text::trim_start_text(title, "File:"),
        size_bytes: match info.size {
            Some(n) => n,
            None => 0,
        },
        width: info.width,
        height: info.height,
        mime: text::clone_opt(&info.mime),
        media_type: text::clone_opt(&info.mediatype),
        url: text::clone_opt(&info.url),
        description_url: text::clone_opt(&info.descriptionurl),
        thumb_url: text::clone_opt(&info.thumburl),
        uploader: text::clone_opt(&info.user),
        timestamp: text::clone_opt(&info.timestamp),
        sha1: text::clone_opt(&info.sha1),
        version_count,
        license_short_name: metadata_value(&info.extmetadata, "LicenseShortName"),
        license_url: metadata_value(&info.extmetadata, "LicenseUrl"),
        categories_text: metadata_value(&info.extmetadata, "Categories"),
        caption_text: ext_text(&info.extmetadata, "ObjectName"),
        description_text: ext_text(&info.extmetadata, "ImageDescription"),
        artist: ext_text(&info.extmetadata, "Artist"),
        date_text,
        camera_model: first_metadata_string(&info.metadata, &info.commonmetadata, "Model"),
        exposure_time: match &texts.exposure_time {
            Some(t) => format_exposure_time(t.as_str(), &readings.exposure_time),
            None => None,
        },
        f_number: match &texts.f_number {
            Some(t) => format_f_number(t.as_str(), &readings.f_number),
            None => None,
        },
        iso_speed: match &texts.iso_speed {
            Some(t) => format_iso_speed(t.as_str(), readings.iso_speed),
            None => None,
        },
        focal_length: match &texts.focal_length {
            Some(t) => format_focal_length(t.as_str(), &readings.focal_length),
            None => None,
        },
        coordinates,
        animated: parse_animation_flag(&info.metadata),
        duration_seconds,
    }
}

/// Returns the latest version of a page's file, where the page has a title and a file.
pub fn latest_version(page: &ApiPage) -> (r: Option<&ApiImageInfo>)
    ensures
        r == (if page.title is Some && page.imageinfo@.len() > 0 {
            Some(&page.imageinfo@[0])
        } else {
            None
        }),
{
    if page.title.is_some() && page.imageinfo.len() > 0 {
        Some(&page.imageinfo[0])
    } else {
        None
    }
}

/// True of the file that a page makes.
pub open spec fn page_hit(hit: FileHit, page: ApiPage, readings: ExifReadings) -> bool {
    hit_of(
        hit,
        or_zero(page.pageid),
        (page.title->0)@,
        page.imageinfo@[0],
        readings,
        Some(page.imageinfo@.len() as usize),
    )
}

/// Converts a MediaWiki query page into a file hit, where the page has a title and a file.
pub fn page_to_hit(page: &ApiPage, readings: &ExifReadings) -> (r: Option<FileHit>)
    ensures
        match r {
            Some(hit) => page.title is Some && page.imageinfo@.len() > 0 && page_hit(
                hit,
                *page,
                *readings,
            ),
            None => page.title is None || page.imageinfo@.len() == 0,
        },
{
    match (&page.title, latest_version(page)) {
        (Some(title), Some(info)) => {
            let page_id: u64 = match page.pageid {
                Some(n) => n,
                None => 0,
            };
            Some(
                imageinfo_to_hit(
                    page_id,
                    title.as_str(),
                    info,
                    readings,
                    Some(page.imageinfo.len()),
                ),
            )
        },
        _ => None,
    }
}

/// True of the files that the first `n` pages make, in the order of the pages. Pages without a
/// title or a file make none.
pub open spec fn page_hits(
    hits: Seq<FileHit>,
    pages: Seq<ApiPage>,
    readings: Seq<ExifReadings>,
    n: nat,
) -> bool
    decreases n,
{
    if n == 0 {
        hits.len() == 0
    } else if pages[n - 1].title is Some && pages[n - 1].imageinfo@.len() > 0 {
        &&& hits.len() > 0
        &&& page_hit(hits.last(), pages[n - 1], readings[n - 1])
        &&& page_hits(hits.drop_last(), pages, readings, (n - 1) as nat)
    } else {
        page_hits(hits, pages, readings, (n - 1) as nat)
    }
}

/// Converts MediaWiki query pages into file hits; `readings` are those of the pages.
pub fn pages_to_hits(pages: &Vec<ApiPage>, readings: &Vec<ExifReadings>) -> (r: Vec<FileHit>)
    requires
        readings@.len() == pages@.len(),
    ensures
        page_hits(r@, pages@, readings@, pages@.len()),
{
    let mut hits: Vec<FileHit> = Vec::new();
    let mut i: usize = 0;
    while i < pages.len()
        invariant
            i <= pages.len(),
            readings@.len() == pages@.len(),
            page_hits(hits@, pages@, readings@, i as nat),
        decreases pages.len() - i,
    {
        let ghost was = hits@;
        if let Some(hit) = page_to_hit(&pages[i], &readings[i]) {
            hits.push(hit);
            assert(hits@.drop_last() =~= was);
        }
        i += 1;
    }
    hits
}

} // verus!
