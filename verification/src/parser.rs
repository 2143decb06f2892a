//! The query language: tokens, prefixes, filters and flags of a search.

use vstd::prelude::*;
use vstd::string::*;
use vstd::utf8::*;
use crate::models::{
    COMMONS_AUDIO_EXTENSIONS, COMMONS_DOCUMENT_EXTENSIONS, COMMONS_IMAGE_EXTENSIONS,
    COMMONS_MODEL_EXTENSIONS, COMMONS_SUPPORTED_EXTENSIONS, COMMONS_VIDEO_EXTENSIONS, DateFilter,
    FileType, Intent, SearchQuery, SizeFilter, SizeOp,
};
use crate::models;
use crate::numbers;
use crate::rounding;
use crate::text;

verus! {

// Characters.

/// The lower-case partner of a letter that occurs in the prefixes, in any case.
pub open spec fn fold(c: char) -> char {
    let u = c as u32;
    if 'A' <= c <= 'Z' {
        text::lower_char(c)
    } else if 0x410 <= u <= 0x42F {
        (u + 0x20) as char
    } else if u == 0xD6 {
        '\u{F6}'
    } else if u == 0x17F {
        's'
    } else if u == 0x1C82 {
        '\u{43E}'
    } else if u == 0x1C83 {
        '\u{441}'
    } else if u == 0x1C84 || u == 0x1C85 {
        '\u{442}'
    } else if u == 0x1E9E {
        '\u{DF}'
    } else if u == 0x212A {
        'k'
    } else {
        c
    }
}

/// A text with the case of the prefixes' letters taken away.
pub open spec fn folded(s: Seq<char>) -> Seq<char> {
    Seq::new(s.len(), |i: int| fold(s[i]))
}

/// The lower-case letter of an upper-case Cyrillic one.
fn lower_cyrillic(c: char) -> (r: char)
    requires
        0x410 <= c as u32 <= 0x42F,
    ensures
        r == fold(c),
{
    let letters: [char; 32] = [
        '\u{430}',
        '\u{431}',
        '\u{432}',
        '\u{433}',
        '\u{434}',
        '\u{435}',
        '\u{436}',
        '\u{437}',
        '\u{438}',
        '\u{439}',
        '\u{43A}',
        '\u{43B}',
        '\u{43C}',
        '\u{43D}',
        '\u{43E}',
        '\u{43F}',
        '\u{440}',
        '\u{441}',
        '\u{442}',
        '\u{443}',
        '\u{444}',
        '\u{445}',
        '\u{446}',
        '\u{447}',
        '\u{448}',
        '\u{449}',
        '\u{44A}',
        '\u{44B}',
        '\u{44C}',
        '\u{44D}',
        '\u{44E}',
        '\u{44F}',
    ];
    assert(forall|i: int| 0 <= i < 32 ==> (#[trigger] letters@[i]) as u32 == 0x430 + i);
    letters[(c as u32 - 0x410) as usize]
}

/// Takes the case of a letter away.
pub fn fold_char(c: char) -> (r: char)
    ensures
        r == fold(c),
{
    let u: u32 = c as u32;
    if 'A' <= c && c <= 'Z' {
        text::ascii_lower_char(c)
    } else if 0x410 <= u && u <= 0x42F {
        lower_cyrillic(c)
    } else if u == 0xD6 {
        '\u{F6}'
    } else if u == 0x17F {
        's'
    } else if u == 0x1C82 {
        '\u{43E}'
    } else if u == 0x1C83 {
        '\u{441}'
    } else if u == 0x1C84 || u == 0x1C85 {
        '\u{442}'
    } else if u == 0x1E9E {
        '\u{DF}'
    } else if u == 0x212A {
        'k'
    } else {
        c
    }
}

/// Takes the case of the prefixes' letters away.
fn fold_text(s: &str) -> (r: String)
    ensures
        r@ == folded(s@),
{
    let v = text::chars_of(s);
    let mut out = String::new();
    let mut i: usize = 0;
    while i < v.len()
        invariant
            i <= v.len(),
            v@ == s@,
            out@ == folded(s@).take(i as int),
        decreases v.len() - i,
    {
        out.push(fold_char(v[i]));
        assert(folded(s@).take(i + 1) == folded(s@).take(i as int).push(fold(s@[i as int])));
        i += 1;
    }
    assert(folded(s@).take(v.len() as int) == folded(s@));
    out
}

/// True of the characters that the regex crate's class `\d` holds.
pub uninterp spec fn unicode_decimal(c: char) -> bool;

/// True of decimal digits in any script.
pub open spec fn is_decimal(c: char) -> bool {
    if (c as u32) < 0x80 {
        text::is_digit(c)
    } else {
        unicode_decimal(c)
    }
}

/// `regex::Regex::is_match` with the class `\d` on a text of one character. The class holds
/// the characters of the Unicode category Nd, which are not listed here.
#[verifier::external_body]
pub(crate) fn regex_decimal(c: char) -> (r: bool)
    ensures
        r == unicode_decimal(c),
{
    regex::Regex::new(r"^\d$").is_ok_and(|class| class.is_match(c.encode_utf8(&mut [0; 4])))
}

/// Returns true for decimal digits in any script.
pub fn decimal_char(c: char) -> (r: bool)
    ensures
        r == is_decimal(c),
{
    if (c as u32) < 0x80 {
        '0' <= c && c <= '9'
    } else {
        regex_decimal(c)
    }
}

// Tokens.

/// The list with one more token, unless that is empty.
pub open spec fn with_token(list: Seq<Seq<char>>, token: Seq<char>) -> Seq<Seq<char>> {
    if token.len() > 0 {
        seq![token] + list
    } else {
        list
    }
}

/// The end of the quoted text that begins at `i`, or `i` where none does.
pub open spec fn quote_end(s: Seq<char>, i: int) -> int {
    if 0 <= i < s.len() && (s[i] == '"' || s[i] == '\'') {
        let e = text::position(s, s[i], i + 1);
        if i + 1 < e < s.len() {
            e
        } else {
            i
        }
    } else {
        i
    }
}

/// The tokens of a text from `i` on: texts in quotes and runs without white space, trimmed.
pub open spec fn tokens_from(s: Seq<char>, i: int) -> Seq<Seq<char>>
    decreases s.len() - i,
{
    if i < 0 || i >= s.len() {
        seq![]
    } else if i < quote_end(s, i) < s.len() {
        with_token(
            tokens_from(s, quote_end(s, i) + 1),
            text::trimmed(s.subrange(i + 1, quote_end(s, i))),
        )
    } else if i < text::run_end(s, false, i) <= s.len() {
        with_token(
            tokens_from(s, text::run_end(s, false, i)),
            text::trimmed(s.subrange(i, text::run_end(s, false, i))),
        )
    } else {
        tokens_from(s, i + 1)
    }
}

/// The tokens of a text.
pub open spec fn tokens_of(s: Seq<char>) -> Seq<Seq<char>> {
    tokens_from(s, 0)
}

/// No token is empty.
pub proof fn law_tokens_not_empty(s: Seq<char>)
    ensures
        forall|k: int| 0 <= k < tokens_of(s).len() ==> (#[trigger] tokens_of(s)[k]).len() > 0,
{
    lemma_tokens_not_empty(s, 0);
}

proof fn lemma_tokens_not_empty(s: Seq<char>, i: int)
    ensures
        forall|k: int| 0 <= k < tokens_from(s, i).len() ==> (#[trigger] tokens_from(s, i)[k]).len()
            > 0,
    decreases s.len() - i,
{
    if i < 0 || i >= s.len() {
    } else if i < quote_end(s, i) < s.len() {
        lemma_tokens_not_empty(s, quote_end(s, i) + 1);
        lemma_with_token(
            tokens_from(s, quote_end(s, i) + 1),
            text::trimmed(s.subrange(i + 1, quote_end(s, i))),
        );
    } else if i < text::run_end(s, false, i) <= s.len() {
        lemma_tokens_not_empty(s, text::run_end(s, false, i));
        lemma_with_token(
            tokens_from(s, text::run_end(s, false, i)),
            text::trimmed(s.subrange(i, text::run_end(s, false, i))),
        );
    } else {
        lemma_tokens_not_empty(s, i + 1);
    }
}

proof fn lemma_with_token(list: Seq<Seq<char>>, token: Seq<char>)
    requires
        forall|k: int| 0 <= k < list.len() ==> (#[trigger] list[k]).len() > 0,
    ensures
        forall|k: int|
            0 <= k < with_token(list, token).len() ==> (#[trigger] with_token(
                list,
                token,
            )[k]).len() > 0,
{
    let all = with_token(list, token);
    assert forall|k: int| 0 <= k < all.len() implies (#[trigger] all[k]).len() > 0 by {
        if token.len() > 0 {
            if k == 0 {
                assert(all[0] == token);
            } else {
                assert(all[k] == list[k - 1]);
            }
        }
    }
}

/// Splits a command line into shell-like tokens with simple quote support.
pub fn tokenize(input: &str) -> (r: Vec<String>)
    ensures
        text::texts(r@) == tokens_of(input@),
{
    let v = text::chars_of(input);
    let mut out: Vec<String> = Vec::new();
    let mut i: usize = 0;
    assert(text::texts(out@) =~= seq![]);
    while i < v.len()
        invariant
            i <= v.len(),
            v@ == input@,
            tokens_of(input@) == text::texts(out@) + tokens_from(input@, i as int),
        decreases v.len() - i,
    {
        let c = v[i];
        let mut start: usize = i;
        let mut end: usize = i;
        let mut next: usize = i + 1;
        if c == '"' || c == '\'' {
            let e: usize = text::find_char(&v, c, i + 1);
            if i + 1 < e && e < v.len() {
                start = i + 1;
                end = e;
                next = e + 1;
            }
        }
        if end == i {
            let e: usize = text::scan_run(&v, false, i);
            if e > i {
                end = e;
                next = e;
            }
        }
        let token = text::trim(text::substring(&v, start, end).as_str());
        let ghost before = out@;
        proof {
            if end == i {
                assert(token@.len() == 0) by {
                    assert(input@.subrange(start as int, end as int) =~= seq![]);
                }
            }
        }
        if token.as_str().unicode_len() > 0 {
            let ghost t = token;
            out.push(token);
            proof {
                text::lemma_texts_push(before, t);
                assert(text::texts(out@) + tokens_from(input@, next as int) =~= text::texts(before)
                    + (seq![t@] + tokens_from(input@, next as int)));
            }
        }
        i = next;
    }
    assert(text::texts(out@) + seq![] =~= text::texts(out@));
    out
}

// Names.

/// A category name as Commons writes it, without namespace.
pub open spec fn category_name(s: Seq<char>) -> Seq<char> {
    text::expanded(
        text::drop_prefixes(
            text::drop_prefixes(text::trimmed(s), "Category:"@),
            "category:"@,
        ),
        text::substitution('_', " "@),
    )
}

/// Normalizes a user-provided category name.
pub fn normalize_category(value: &str) -> (r: String)
    ensures
        r@ == category_name(value@),
{
    let name = text::trim(value);
    let name = text::trim_start_text(name.as_str(), "Category:");
    let name = text::trim_start_text(name.as_str(), "category:");
    text::replace_char(name.as_str(), '_', " ")
}

/// A category name holds no underscore.
pub proof fn law_category_name_spaces(s: Seq<char>)
    ensures
        !category_name(s).contains('_'),
{
    reveal_strlit(" ");
    text::lemma_substitution_removes(
        text::drop_prefixes(
            text::drop_prefixes(text::trimmed(s), "Category:"@),
            "category:"@,
        ),
        '_',
        " "@,
    );
}

/// True of image extensions in any case.
pub open spec fn image_extension(ext: Seq<char>) -> bool {
    let e = text::lowered(ext);
    text::among(COMMONS_IMAGE_EXTENSIONS@, e) || e == "avif"@ || e == "bmp"@
}

/// True of audio extensions in any case.
pub open spec fn audio_extension(ext: Seq<char>) -> bool {
    text::among(COMMONS_AUDIO_EXTENSIONS@, text::lowered(ext))
}

/// True of video extensions in any case.
pub open spec fn video_extension(ext: Seq<char>) -> bool {
    let e = text::lowered(ext);
    text::among(COMMONS_VIDEO_EXTENSIONS@, e) || e == "mp4"@
}

/// True of the extensions that a word of a query can name.
pub open spec fn known_extension(e: Seq<char>) -> bool {
    ||| image_extension(e)
    ||| audio_extension(e)
    ||| video_extension(e)
    ||| text::among(COMMONS_DOCUMENT_EXTENSIONS@, e)
    ||| text::among(COMMONS_MODEL_EXTENSIONS@, e)
}

/// An extension without leading dots and in lower case.
pub open spec fn bare_extension(s: Seq<char>) -> Seq<char> {
    text::lowered(text::drop_leading(s, text::just('.')))
}

/// Returns true when the extension should be treated as an image.
pub fn is_image_extension(ext: &str) -> (r: bool)
    ensures
        r == image_extension(ext@),
{
    let e = text::ascii_lowercase(ext);
    text::listed(&COMMONS_IMAGE_EXTENSIONS, e.as_str()) || text::same(e.as_str(), "avif")
        || text::same(e.as_str(), "bmp")
}

/// Returns true when the extension should be treated as audio.
pub fn is_audio_extension(ext: &str) -> (r: bool)
    ensures
        r == audio_extension(ext@),
{
    text::listed(&COMMONS_AUDIO_EXTENSIONS, text::ascii_lowercase(ext).as_str())
}

/// Returns true when the extension should be treated as video.
pub fn is_video_extension(ext: &str) -> (r: bool)
    ensures
        r == video_extension(ext@),
{
    let e = text::ascii_lowercase(ext);
    text::listed(&COMMONS_VIDEO_EXTENSIONS, e.as_str()) || text::same(e.as_str(), "mp4")
}

/// Returns true when Commons accepts the extension for upload/search filtering.
pub fn is_commons_supported_extension(ext: &str) -> (r: bool)
    ensures
        r == text::among(COMMONS_SUPPORTED_EXTENSIONS@, bare_extension(ext@)),
{
    let e = text::ascii_lowercase(text::trim_start_char(ext, '.').as_str());
    text::listed(&COMMONS_SUPPORTED_EXTENSIONS, e.as_str())
}

/// Parses a known file extension filter.
fn parse_known_extension(value: &str) -> (r: Option<String>)
    ensures
        text::opt_text(r) == (if known_extension(bare_extension(value@)) {
            Some(bare_extension(value@))
        } else {
            None
        }),
{
    let e = text::ascii_lowercase(text::trim_start_char(value, '.').as_str());
    if is_image_extension(e.as_str()) || is_audio_extension(e.as_str()) || is_video_extension(
        e.as_str(),
    ) || text::listed(&COMMONS_DOCUMENT_EXTENSIONS, e.as_str()) || text::listed(
        &COMMONS_MODEL_EXTENSIONS,
        e.as_str(),
    ) {
        Some(e)
    } else {
        None
    }
}

/// True of the words that mean a category.
pub open spec fn category_word(w: Seq<char>) -> bool {
    ||| w == "c"@
    ||| w == "category"@
    ||| w == "kategorie"@
    ||| w == "kat"@
    ||| w == "k"@
    ||| w == "категория"@
    ||| w == "катэгорыя"@
    ||| w == "к"@
    ||| w == "с"@
}

/// Returns true for aliases that mean a category.
fn is_category_word(w: &str) -> (r: bool)
    ensures
        r == category_word(w@),
{
    text::same(w, "c") || text::same(w, "category") || text::same(w, "kategorie") || text::same(
        w,
        "kat",
    ) || text::same(w, "k") || text::same(w, "категория") || text::same(w, "катэгорыя")
        || text::same(w, "к") || text::same(w, "с")
}

/// The file family that a prefix names.
pub open spec fn family_of(w: Seq<char>) -> Option<FileType> {
    if w == "audio"@ || w == "sound"@ || w == "music"@ || w == "ton"@ || w == "klang"@ || w
        == "musik"@ || w == "музыка"@ || w == "звук"@ || w == "аудио"@ || w == "аудыё"@ {
        Some(FileType::Audio)
    } else if w == "image"@ || w == "images"@ || w == "img"@ || w == "i"@ || w == "bild"@ || w
        == "bilder"@ || w == "foto"@ || w == "fotos"@ || w == "выява"@ || w == "ваява"@ || w
        == "в"@ {
        Some(FileType::Images)
    } else if w == "video"@ || w == "videos"@ {
        Some(FileType::Video)
    } else {
        None
    }
}

/// What stands before the first colon of a text, or all of it.
pub open spec fn before_colon(s: Seq<char>) -> Seq<char> {
    match text::cut_first(s, ':') {
        Some((p, _)) => p,
        None => s,
    }
}

/// Parses image/audio/video query prefixes.
fn parse_file_type_prefix(value: &str) -> (r: Option<FileType>)
    ensures
        r == family_of(before_colon(value@)),
{
    let name = match text::split_once(value, ':') {
        Some((prefix, _)) => prefix,
        None => value.to_owned(),
    };
    let w = name.as_str();
    if text::same(w, "audio") || text::same(w, "sound") || text::same(w, "music") || text::same(
        w,
        "ton",
    ) || text::same(w, "klang") || text::same(w, "musik") || text::same(w, "музыка")
        || text::same(w, "звук") || text::same(w, "аудио") || text::same(w, "аудыё") {
        Some(FileType::Audio)
    } else if text::same(w, "image") || text::same(w, "images") || text::same(w, "img")
        || text::same(w, "i") || text::same(w, "bild") || text::same(w, "bilder") || text::same(
        w,
        "foto",
    ) || text::same(w, "fotos") || text::same(w, "выява") || text::same(w, "ваява")
        || text::same(w, "в") {
        Some(FileType::Images)
    } else if text::same(w, "video") || text::same(w, "videos") {
        Some(FileType::Video)
    } else {
        None
    }
}

// Dates.

/// The date filter that a word stands for.
pub open spec fn date_filter(s: Seq<char>) -> Option<models::DateView> {
    let w = models::word(s);
    let b = encode_utf8(w);
    if w == "month"@ || w == "monat"@ {
        Some(models::DateView::PreviousMonth)
    } else if w == "year"@ || w == "jahr"@ {
        Some(models::DateView::PreviousYear)
    } else if text::finishes(w, "days"@) {
        match numbers::unsigned_value(w.take(w.len() - "days"@.len()), u32::MAX as nat) {
            Some(n) => Some(models::DateView::RelativeDays(n as u32)),
            None => None,
        }
    } else if b.len() == 4 {
        match numbers::signed_value(w, i32::MAX as nat) {
            Some(y) => Some(models::DateView::Year(y as i32)),
            None => None,
        }
    } else if b.len() == 10 && b[4] == '-' as u8 && b[7] == '-' as u8 {
        Some(models::DateView::Day(w))
    } else {
        None
    }
}

/// Parses a date filter value.
pub fn parse_date_filter(value: &str) -> (r: Option<DateFilter>)
    ensures
        models::opt_date(r) == date_filter(value@),
{
    let lower = text::ascii_lowercase(text::trim(value).as_str());
    let w = lower.as_str();
    if text::same(w, "month") || text::same(w, "monat") {
        return Some(DateFilter::PreviousMonth);
    }
    if text::same(w, "year") || text::same(w, "jahr") {
        return Some(DateFilter::PreviousYear);
    }
    if let Some(days) = text::strip_suffix(w, "days") {
        return match numbers::parse_unsigned(days.as_str(), u32::MAX as u64) {
            Some(n) => Some(DateFilter::RelativeDays(n as u32)),
            None => None,
        };
    }
    let b = w.as_bytes_vec();
    if b.len() == 4 {
        return match numbers::parse_signed(w, i32::MAX as i64) {
            Some(y) => Some(DateFilter::Year(y as i32)),
            None => None,
        };
    }
    if b.len() == 10 && b[4] == '-' as u8 && b[7] == '-' as u8 {
        return Some(DateFilter::Day(lower));
    }
    None
}

/// True where every character of a part is a decimal digit.
pub open spec fn decimals(s: Seq<char>, from: int, to: int) -> bool {
    forall|i: int| from <= i < to ==> is_decimal(#[trigger] s[i])
}

/// True of the values that a date prefix takes: a day, a year, a number of days, or a word.
pub open spec fn date_form(v: Seq<char>) -> bool {
    let f = folded(v);
    ||| v.len() == 10 && decimals(v, 0, 4) && v[4] == '-' && decimals(v, 5, 7) && v[7] == '-'
        && decimals(v, 8, 10)
    ||| v.len() == 4 && decimals(v, 0, 4)
    ||| text::finishes(f, "days"@) && f.len() > "days"@.len() && decimals(
        v,
        0,
        f.len() - "days"@.len(),
    )
    ||| f == "month"@
    ||| f == "year"@
    ||| f == "monat"@
    ||| f == "jahr"@
}

/// Returns true when every character of a part is a decimal digit.
fn all_decimals(v: &Vec<char>, from: usize, to: usize) -> (r: bool)
    requires
        from <= to <= v.len(),
    ensures
        r == decimals(v@, from as int, to as int),
{
    let mut i: usize = from;
    while i < to
        invariant
            from <= i <= to <= v.len(),
            decimals(v@, from as int, i as int),
        decreases to - i,
    {
        if !decimal_char(v[i]) {
            return false;
        }
        i += 1;
    }
    true
}

/// Returns true for the values that a date prefix takes.
fn is_date_form(s: &str) -> (r: bool)
    ensures
        r == date_form(s@),
{
    proof {
        reveal_strlit("days");
    }
    let v = text::chars_of(s);
    let f = fold_text(s);
    let n: usize = v.len();
    (n == 10 && all_decimals(&v, 0, 4) && v[4] == '-' && all_decimals(&v, 5, 7) && v[7] == '-'
        && all_decimals(&v, 8, 10)) || (n == 4 && all_decimals(&v, 0, 4)) || (text::ends_with(
        f.as_str(),
        "days",
    ) && n > 4 && all_decimals(&v, 0, n - 4)) || text::same(f.as_str(), "month") || text::same(
        f.as_str(),
        "year",
    ) || text::same(f.as_str(), "monat") || text::same(f.as_str(), "jahr")
}

/// The value of a date prefix, where the token is one.
pub open spec fn date_value(token: Seq<char>) -> Option<Seq<char>> {
    match text::cut_first(token, ':') {
        Some((p, rest)) => {
            let f = folded(p);
            let v = text::drop_leading(rest, text::white_class());
            if (f == "date"@ || f == "datum"@ || f == "d"@) && date_form(v) {
                Some(v)
            } else {
                None
            }
        },
        None => None,
    }
}

/// Takes a date prefix apart.
fn parse_date_prefix(token: &str) -> (r: Option<String>)
    ensures
        text::opt_text(r) == date_value(token@),
{
    match text::split_once(token, ':') {
        Some((prefix, rest)) => {
            let f = fold_text(prefix.as_str());
            let v = text::trim_start(rest.as_str());
            if (text::same(f.as_str(), "date") || text::same(f.as_str(), "datum") || text::same(
                f.as_str(),
                "d",
            )) && is_date_form(v.as_str()) {
                Some(v)
            } else {
                None
            }
        },
        None => None,
    }
}

// Sizes.

/// The end of the decimal digits that begin at `from`.
pub open spec fn decimals_end(s: Seq<char>, from: int) -> int
    decreases s.len() - from,
{
    if 0 <= from < s.len() && is_decimal(s[from]) {
        decimals_end(s, from + 1)
    } else {
        from
    }
}

/// A size filter as it is written: direction, digits before and after the point, unit.
pub struct WrittenSize {
    pub greater: bool,
    pub whole: Seq<char>,
    pub fraction: Seq<char>,
    pub unit: Seq<char>,
}

/// True of the units of size, with case taken away: an optional letter and an optional `b`.
pub open spec fn size_unit(f: Seq<char>) -> bool {
    ||| f == ""@
    ||| f == "b"@
    ||| f == "k"@
    ||| f == "kb"@
    ||| f == "m"@
    ||| f == "mb"@
    ||| f == "g"@
    ||| f == "gb"@
    ||| f == "t"@
    ||| f == "tb"@
}

/// The size that is written behind a size prefix.
pub open spec fn written_size(rest: Seq<char>) -> Option<WrittenSize> {
    let s = text::drop_leading(rest, text::white_class());
    if s.len() > 0 && (s[0] == '<' || s[0] == '>') {
        let t = text::drop_leading(s.skip(1), text::white_class());
        let a = decimals_end(t, 0);
        let dotted = a + 1 < t.len() && t[a] == '.' && is_decimal(t[a + 1]);
        let b = if dotted {
            decimals_end(t, a + 1)
        } else {
            a
        };
        let unit = text::drop_leading(t.skip(b), text::white_class());
        if a > 0 && size_unit(folded(unit)) {
            Some(
                WrittenSize {
                    greater: s[0] == '>',
                    whole: t.take(a),
                    fraction: if dotted {
                        t.subrange(a + 1, b)
                    } else {
                        seq![]
                    },
                    unit,
                },
            )
        } else {
            None
        }
    } else {
        None
    }
}

/// The size that a token with a size prefix holds.
pub open spec fn size_value(token: Seq<char>) -> Option<WrittenSize> {
    match text::cut_first(token, ':') {
        Some((p, rest)) => {
            let f = folded(p);
            if f == "size"@ || f == "s"@ || f == "groesse"@ || f == "größe"@ || f == "g"@ {
                written_size(rest)
            } else {
                None
            }
        },
        None => None,
    }
}

/// The number of times that a unit doubles a byte.
pub open spec fn unit_doublings(unit: Seq<char>) -> Option<nat> {
    let u = text::lowered(unit);
    if u == ""@ || u == "b"@ {
        Some(0)
    } else if u == "k"@ || u == "kb"@ {
        Some(10)
    } else if u == "m"@ || u == "mb"@ {
        Some(20)
    } else if u == "g"@ || u == "gb"@ {
        Some(30)
    } else if u == "t"@ || u == "tb"@ {
        Some(40)
    } else {
        None
    }
}

/// True where a text holds nothing but ASCII digits.
pub open spec fn plain_digits(s: Seq<char>) -> bool {
    forall|i: int| 0 <= i < s.len() ==> text::is_digit(#[trigger] s[i])
}

/// The number of bytes that a decimal number times a power of two stands for, as computed
/// with 53 significant binary digits and cut to a whole number of 64 bits.
pub open spec fn byte_count(whole: Seq<char>, fraction: Seq<char>, doublings: nat) -> u64 {
    let den = rounding::ten_to(fraction.len());
    let num = (numbers::number_of(whole) * den + numbers::number_of(fraction)) * rounding::two_to(
        doublings,
    );
    if rounding::rounded_whole(num, den) > u64::MAX {
        u64::MAX
    } else {
        rounding::rounded_whole(num, den) as u64
    }
}

/// The size filter that a written size stands for.
pub open spec fn size_filter(w: WrittenSize) -> Option<SizeFilter> {
    match unit_doublings(w.unit) {
        Some(k) => if plain_digits(w.whole) && plain_digits(w.fraction) {
            Some(
                SizeFilter {
                    op: if w.greater {
                        SizeOp::GreaterThan
                    } else {
                        SizeOp::LessThan
                    },
                    bytes: byte_count(w.whole, w.fraction, k),
                },
            )
        } else {
            None
        },
        None => None,
    }
}

/// Finds the end of the decimal digits that begin at `from`.
fn scan_decimals(v: &Vec<char>, from: usize) -> (r: usize)
    requires
        from <= v.len(),
    ensures
        r == decimals_end(v@, from as int),
        from <= r <= v.len(),
{
    let mut i: usize = from;
    while i < v.len() && decimal_char(v[i])
        invariant
            from <= i <= v.len(),
            decimals_end(v@, from as int) == decimals_end(v@, i as int),
        decreases v.len() - i,
    {
        i += 1;
    }
    i
}

/// Returns true when a list holds nothing but ASCII digits.
fn are_plain_digits(v: &Vec<char>) -> (r: bool)
    ensures
        r == plain_digits(v@),
{
    let mut i: usize = 0;
    while i < v.len()
        invariant
            i <= v.len(),
            forall|k: int| 0 <= k < i ==> text::is_digit(#[trigger] v@[k]),
        decreases v.len() - i,
    {
        if v[i] < '0' || v[i] > '9' {
            return false;
        }
        i += 1;
    }
    true
}

/// Returns the number of times that a unit doubles a byte.
fn doublings_of(unit: &str) -> (r: Option<u32>)
    ensures
        match (r, unit_doublings(unit@)) {
            (Some(a), Some(b)) => a == b,
            (None, None) => true,
            _ => false,
        },
{
    let lower = text::ascii_lowercase(unit);
    let u = lower.as_str();
    if text::same(u, "") || text::same(u, "b") {
        Some(0)
    } else if text::same(u, "k") || text::same(u, "kb") {
        Some(10)
    } else if text::same(u, "m") || text::same(u, "mb") {
        Some(20)
    } else if text::same(u, "g") || text::same(u, "gb") {
        Some(30)
    } else if text::same(u, "t") || text::same(u, "tb") {
        Some(40)
    } else {
        None
    }
}

/// Parses a file-size predicate from its parts.
fn parse_size_filter(greater: bool, whole: &Vec<char>, fraction: &Vec<char>, unit: &str) -> (r:
    Option<SizeFilter>)
    ensures
        r == size_filter((WrittenSize { greater, whole: whole@, fraction: fraction@, unit: unit@ })),
{
    let doublings: u32 = match doublings_of(unit) {
        Some(k) => k,
        None => return None,
    };
    if !are_plain_digits(whole) || !are_plain_digits(fraction) {
        return None;
    }
    let op = if greater {
        SizeOp::GreaterThan
    } else {
        SizeOp::LessThan
    };
    Some(SizeFilter { op, bytes: rounding::scaled_decimal(whole, fraction, doublings) })
}

/// Returns true for the units of size.
fn is_size_unit(f: &str) -> (r: bool)
    ensures
        r == size_unit(f@),
{
    text::same(f, "") || text::same(f, "b") || text::same(f, "k") || text::same(f, "kb")
        || text::same(f, "m") || text::same(f, "mb") || text::same(f, "g") || text::same(f, "gb")
        || text::same(f, "t") || text::same(f, "tb")
}

/// Copies a part of a list of characters.
fn part_of(v: &Vec<char>, from: usize, to: usize) -> (r: Vec<char>)
    requires
        from <= to <= v.len(),
    ensures
        r@ == v@.subrange(from as int, to as int),
{
    text::chars_of(text::substring(v, from, to).as_str())
}

/// Parses the size behind a size prefix: nothing where none is written there, and the filter
/// or nothing where one is.
fn parse_written_size(rest: &str) -> (r: Option<Option<SizeFilter>>)
    ensures
        r == (match written_size(rest@) {
            Some(w) => Some(size_filter(w)),
            None => None,
        }),
{
    let s = text::trim_start(rest);
    let v = text::chars_of(s.as_str());
    if v.len() == 0 || (v[0] != '<' && v[0] != '>') {
        return None;
    }
    let greater: bool = v[0] == '>';
    let t = text::trim_start(text::substring(&v, 1, v.len()).as_str());
    proof {
        assert(s@.skip(1) =~= s@.subrange(1, s@.len() as int));
    }
    let t = text::chars_of(t.as_str());
    let a: usize = scan_decimals(&t, 0);
    let mut b: usize = a;
    let dotted: bool = t.len() >= 2 && a < t.len() - 1 && t[a] == '.' && decimal_char(t[a + 1]);
    if dotted {
        b = scan_decimals(&t, a + 1);
    }
    let unit = text::trim_start(text::substring(&t, b, t.len()).as_str());
    proof {
        assert(t@.skip(b as int) =~= t@.subrange(b as int, t@.len() as int));
        assert(t@.take(a as int) =~= t@.subrange(0, a as int));
    }
    if a == 0 || !is_size_unit(fold_text(unit.as_str()).as_str()) {
        return None;
    }
    let whole = part_of(&t, 0, a);
    let fraction = if dotted {
        part_of(&t, a + 1, b)
    } else {
        Vec::new()
    };
    Some(parse_size_filter(greater, &whole, &fraction, unit.as_str()))
}

/// Parses a token with a size prefix.
fn parse_size_prefix(token: &str) -> (r: Option<Option<SizeFilter>>)
    ensures
        r == (match size_value(token@) {
            Some(w) => Some(size_filter(w)),
            None => None,
        }),
{
    match text::split_once(token, ':') {
        Some((prefix, rest)) => {
            let f = fold_text(prefix.as_str());
            if text::same(f.as_str(), "size") || text::same(f.as_str(), "s") || text::same(
                f.as_str(),
                "groesse",
            ) || text::same(f.as_str(), "größe") || text::same(f.as_str(), "g") {
                parse_written_size(rest.as_str())
            } else {
                None
            }
        },
        None => None,
    }
}

// Prefixes with a name behind them.

/// True where a text holds nothing but white space.
pub open spec fn all_white(s: Seq<char>) -> bool {
    forall|i: int| 0 <= i < s.len() ==> text::is_white(#[trigger] s[i])
}

/// The name behind a prefix, trimmed. What stands after the last line break must not be empty,
/// and nothing but white space may stand before that.
pub open spec fn tail_value(rest: Seq<char>) -> Option<Seq<char>> {
    let n = text::last_position(rest, '\n', rest.len() as int) + 1;
    if n < rest.len() && all_white(rest.take(n)) {
        Some(text::trimmed(rest))
    } else {
        None
    }
}

/// Takes the name behind a prefix.
fn parse_tail(rest: &str) -> (r: Option<String>)
    ensures
        text::opt_text(r) == tail_value(rest@),
{
    let v = text::chars_of(rest);
    let mut n: usize = v.len();
    while n > 0 && v[n - 1] != '\n'
        invariant
            n <= v.len(),
            v@ == rest@,
            text::last_position(rest@, '\n', rest@.len() as int) == text::last_position(
                rest@,
                '\n',
                n as int,
            ),
        decreases n,
    {
        n -= 1;
    }
    if n == v.len() {
        return None;
    }
    let mut i: usize = 0;
    while i < n
        invariant
            i <= n < v.len(),
            v@ == rest@,
            n == text::last_position(rest@, '\n', rest@.len() as int) + 1,
            forall|k: int| 0 <= k < i ==> text::is_white(#[trigger] rest@[k]),
        decreases n - i,
    {
        if !text::white(v[i]) {
            proof {
                assert(rest@.take(n as int)[i as int] == rest@[i as int]);
            }
            return None;
        }
        i += 1;
    }
    Some(text::trim(rest))
}

/// The name behind a user prefix, where the token is one.
pub open spec fn user_value(token: Seq<char>) -> Option<Seq<char>> {
    match text::cut_first(token, ':') {
        Some((p, rest)) => {
            let f = folded(p);
            if f == "user"@ || f == "u"@ || f == "benutzer"@ {
                tail_value(rest)
            } else {
                None
            }
        },
        None => None,
    }
}

/// Takes a user prefix apart.
fn parse_user_prefix(token: &str) -> (r: Option<String>)
    ensures
        text::opt_text(r) == user_value(token@),
{
    match text::split_once(token, ':') {
        Some((prefix, rest)) => {
            let f = fold_text(prefix.as_str());
            if text::same(f.as_str(), "user") || text::same(f.as_str(), "u") || text::same(
                f.as_str(),
                "benutzer",
            ) {
                parse_tail(rest.as_str())
            } else {
                None
            }
        },
        None => None,
    }
}

/// The prefix and the name of a category token, where the token is one.
pub open spec fn category_value(token: Seq<char>) -> Option<(Seq<char>, Seq<char>)> {
    match text::cut_first(token, ':') {
        Some((p, rest)) => {
            let f = folded(p);
            if f == "c"@ || f == "category"@ || f == "категория"@ || f == "катэгорыя"@ || f
                == "kategorie"@ || f == "kat"@ || f == "к"@ || f == "с"@ {
                match tail_value(rest) {
                    Some(v) => Some((p, v)),
                    None => None,
                }
            } else {
                None
            }
        },
        None => None,
    }
}

/// Takes a category prefix apart.
fn parse_category_prefix(token: &str) -> (r: Option<(String, String)>)
    ensures
        text::opt_pair(r) == category_value(token@),
{
    match text::split_once(token, ':') {
        Some((prefix, rest)) => {
            let f = fold_text(prefix.as_str());
            if text::same(f.as_str(), "c") || text::same(f.as_str(), "category") || text::same(
                f.as_str(),
                "категория",
            ) || text::same(f.as_str(), "катэгорыя") || text::same(f.as_str(), "kategorie")
                || text::same(f.as_str(), "kat") || text::same(f.as_str(), "к") || text::same(
                f.as_str(),
                "с",
            ) {
                match parse_tail(rest.as_str()) {
                    Some(value) => Some((prefix, value)),
                    None => None,
                }
            } else {
                None
            }
        },
        None => None,
    }
}

// Searches.

/// An alias as it is compared: trimmed and in lower case.
pub open spec fn alias(s: Seq<char>) -> Seq<char> {
    text::lower_text(text::trimmed(s))
}

/// Lowercases aliases while preserving non-ASCII letters.
pub fn normalize_alias(value: &str) -> (r: String)
    ensures
        r@ == alias(value@),
{
    text::to_lowercase(text::trim(value).as_str())
}

/// What a token means in a search.
pub enum Part {
    /// Compact link results.
    Links,
    /// Image previews.
    Images,
    /// Order by size.
    SortBySize,
    /// No size limit.
    BypassLimit,
    /// A file family, with a term behind it unless that is empty.
    Family(FileType, String),
    /// A file extension.
    Extension(String),
    /// A date, which is dropped where it makes no filter.
    Date(Option<DateFilter>),
    /// A date in the next token, which takes the place of an earlier one in any case.
    NextDate(Option<DateFilter>),
    /// A size, which is dropped where it makes no filter.
    Size(Option<SizeFilter>),
    /// An uploader.
    User(String),
    /// An uploader in the next token.
    NextUser(String),
    /// A category.
    Category(String),
    /// A category in the next token.
    NextCategory(String),
    /// A free-text term.
    Term(String),
}

/// The value of `Part`.
pub enum PartView {
    Links,
    Images,
    SortBySize,
    BypassLimit,
    Family(FileType, Seq<char>),
    Extension(Seq<char>),
    Date(Option<models::DateView>),
    NextDate(Option<models::DateView>),
    Size(Option<SizeFilter>),
    User(Seq<char>),
    NextUser(Seq<char>),
    Category(Seq<char>),
    NextCategory(Seq<char>),
    Term(Seq<char>),
}

impl View for Part {
    type V = PartView;

    open spec fn view(&self) -> PartView {
        match self {
            Part::Links => PartView::Links,
            Part::Images => PartView::Images,
            Part::SortBySize => PartView::SortBySize,
            Part::BypassLimit => PartView::BypassLimit,
            Part::Family(t, s) => PartView::Family(*t, s@),
            Part::Extension(s) => PartView::Extension(s@),
            Part::Date(d) => PartView::Date(models::opt_date(*d)),
            Part::NextDate(d) => PartView::NextDate(models::opt_date(*d)),
            Part::Size(f) => PartView::Size(*f),
            Part::User(s) => PartView::User(s@),
            Part::NextUser(s) => PartView::NextUser(s@),
            Part::Category(s) => PartView::Category(s@),
            Part::NextCategory(s) => PartView::NextCategory(s@),
            Part::Term(s) => PartView::Term(s@),
        }
    }
}

/// The term behind the first colon of a token, trimmed; empty where there is none.
pub open spec fn term_behind_colon(token: Seq<char>) -> Seq<char> {
    match text::cut_first(token, ':') {
        Some((_, s)) => text::trimmed(s),
        None => seq![],
    }
}

/// What a token means, given its lower-case form and the token behind it.
pub open spec fn part_of_token(
    token: Seq<char>,
    lower: Seq<char>,
    next: Option<Seq<char>>,
) -> PartView {
    if lower == "-links"@ || lower == "–links"@ || lower == "—links"@ {
        PartView::Links
    } else if lower == "-img"@ || lower == "–img"@ || lower == "—img"@ {
        PartView::Images
    } else if lower == "--sort-size"@ || lower == "--sort-by-size"@ || lower == "sort:size"@ {
        PartView::SortBySize
    } else if lower == "--bypass-telegram-limit"@ {
        PartView::BypassLimit
    } else if family_of(before_colon(lower)) is Some {
        PartView::Family(family_of(before_colon(lower))->0, term_behind_colon(token))
    } else if known_extension(bare_extension(lower)) {
        PartView::Extension(bare_extension(lower))
    } else if date_value(token) is Some {
        PartView::Date(date_filter(date_value(token)->0))
    } else if (lower == "date"@ || lower == "datum"@ || lower == "d"@) && next is Some {
        PartView::NextDate(date_filter(next->0))
    } else if size_value(token) is Some {
        PartView::Size(size_filter(size_value(token)->0))
    } else if user_value(token) is Some {
        if (user_value(token)->0).len() == 0 && next is Some {
            PartView::NextUser(next->0)
        } else {
            PartView::User(user_value(token)->0)
        }
    } else if (lower == "user"@ || lower == "u"@ || lower == "benutzer"@) && next is Some {
        PartView::NextUser(next->0)
    } else if category_value(token) is Some && (category_value(token)->0).1.len() > 0 {
        PartView::Category(category_name((category_value(token)->0).1))
    } else if category_word(text::drop_trailing(lower, text::just(':'))) && next is Some {
        PartView::NextCategory(category_name(next->0))
    } else {
        PartView::Term(token)
    }
}

/// Says what a token means, given its lower-case form and the token behind it.
pub fn classify(token: &str, lower: &str, next: Option<&str>) -> (r: Part)
    ensures
        r@ == part_of_token(token@, lower@, text::opt_slice(next)),
{
    if text::same(lower, "-links") || text::same(lower, "–links") || text::same(
        lower,
        "—links",
    ) {
        return Part::Links;
    }
    if text::same(lower, "-img") || text::same(lower, "–img") || text::same(lower, "—img") {
        return Part::Images;
    }
    if text::same(lower, "--sort-size") || text::same(lower, "--sort-by-size") || text::same(
        lower,
        "sort:size",
    ) {
        return Part::SortBySize;
    }
    if text::same(lower, "--bypass-telegram-limit") {
        return Part::BypassLimit;
    }
    if let Some(family) = parse_file_type_prefix(lower) {
        let term = match text::split_once(token, ':') {
            Some((_, suffix)) => text::trim(suffix.as_str()),
            None => String::new(),
        };
        return Part::Family(family, term);
    }
    if let Some(extension) = parse_known_extension(lower) {
        return Part::Extension(extension);
    }
    if let Some(value) = parse_date_prefix(token) {
        return Part::Date(parse_date_filter(value.as_str()));
    }
    if text::same(lower, "date") || text::same(lower, "datum") || text::same(lower, "d") {
        if let Some(value) = next {
            return Part::NextDate(parse_date_filter(value));
        }
    }
    if let Some(size) = parse_size_prefix(token) {
        return Part::Size(size);
    }
    if let Some(value) = parse_user_prefix(token) {
        if value.as_str().unicode_len() == 0 {
            if let Some(name) = next {
                return Part::NextUser(name.to_owned());
            }
        }
        return Part::User(value);
    }
    if text::same(lower, "user") || text::same(lower, "u") || text::same(lower, "benutzer") {
        if let Some(name) = next {
            return Part::NextUser(name.to_owned());
        }
    }
    if let Some((_, value)) = parse_category_prefix(token) {
        if value.as_str().unicode_len() > 0 {
            return Part::Category(normalize_category(value.as_str()));
        }
    }
    if is_category_word(text::trim_end_char(lower, ':').as_str()) {
        if let Some(name) = next {
            return Part::NextCategory(normalize_category(name));
        }
    }
    Part::Term(token.to_owned())
}

/// The number of tokens that a part takes.
pub open spec fn tokens_taken(p: PartView) -> int {
    match p {
        PartView::NextDate(_) => 2,
        PartView::NextUser(_) => 2,
        PartView::NextCategory(_) => 2,
        _ => 1,
    }
}

/// A query with one more part.
pub open spec fn with_part(q: models::QueryView, p: PartView) -> models::QueryView {
    match p {
        PartView::Links => models::QueryView { links_flag: true, ..q },
        PartView::Images => models::QueryView {
            image_previews_flag: true,
            file_type: if q.file_type is None {
                Some(FileType::Images)
            } else {
                q.file_type
            },
            ..q
        },
        PartView::SortBySize => models::QueryView { sort_by_size: true, ..q },
        PartView::BypassLimit => models::QueryView { bypass_telegram_limit: true, ..q },
        PartView::Family(t, s) => models::QueryView {
            file_type: Some(t),
            terms: if s.len() > 0 {
                q.terms.push(s)
            } else {
                q.terms
            },
            ..q
        },
        PartView::Extension(e) => models::QueryView { extension: Some(e), ..q },
        PartView::Date(d) => models::QueryView {
            date: if d is Some {
                d
            } else {
                q.date
            },
            ..q
        },
        PartView::NextDate(d) => models::QueryView { date: d, ..q },
        PartView::Size(f) => models::QueryView {
            size_filters: match f {
                Some(x) => q.size_filters.push(x),
                None => q.size_filters,
            },
            ..q
        },
        PartView::User(u) => models::QueryView { user: Some(u), ..q },
        PartView::NextUser(u) => models::QueryView { user: Some(u), ..q },
        PartView::Category(c) => models::QueryView { category: Some(c), ..q },
        PartView::NextCategory(c) => models::QueryView { category: Some(c), ..q },
        PartView::Term(t) => models::QueryView { terms: q.terms.push(t), ..q },
    }
}

/// The token at an index, where there is one.
pub open spec fn token_at(tokens: Seq<Seq<char>>, i: int) -> Option<Seq<char>> {
    if 0 <= i < tokens.len() {
        Some(tokens[i])
    } else {
        None
    }
}

/// The part that begins at an index.
pub open spec fn part_at(tokens: Seq<Seq<char>>, i: int) -> PartView {
    part_of_token(tokens[i], alias(tokens[i]), token_at(tokens, i + 1))
}

/// A query with the parts of the tokens from `i` on.
pub open spec fn query_from(
    q: models::QueryView,
    tokens: Seq<Seq<char>>,
    i: int,
) -> models::QueryView
    decreases tokens.len() - i,
{
    if 0 <= i < tokens.len() {
        let p = part_at(tokens, i);
        query_from(with_part(q, p), tokens, i + tokens_taken(p))
    } else {
        q
    }
}

/// The query that tokens make.
pub open spec fn query_of(raw: Seq<char>, tokens: Seq<Seq<char>>) -> models::QueryView {
    query_from(models::QueryView::empty(raw), tokens, 0)
}

/// Adds a part to a query and returns the number of tokens that it takes.
fn add_part(query: &mut SearchQuery, part: Part) -> (taken: usize)
    ensures
        final(query)@ == with_part(old(query)@, part@),
        taken == tokens_taken(part@),
{
    let ghost was = query@;
    let ghost terms = query.terms@;
    let ghost p = part@;
    let taken: usize = match part {
        Part::Links => {
            query.links_flag = true;
            1
        },
        Part::Images => {
            query.image_previews_flag = true;
            if query.file_type.is_none() {
                query.file_type = Some(FileType::Images);
            }
            1
        },
        Part::SortBySize => {
            query.sort_by_size = true;
            1
        },
        Part::BypassLimit => {
            query.bypass_telegram_limit = true;
            1
        },
        Part::Family(family, term) => {
            query.file_type = Some(family);
            if term.as_str().unicode_len() > 0 {
                proof {
                    text::lemma_texts_push(terms, term);
                }
                query.terms.push(term);
            }
            1
        },
        Part::Extension(extension) => {
            query.extension = Some(extension);
            1
        },
        Part::Date(date) => {
            if date.is_some() {
                query.date = date;
            }
            1
        },
        Part::NextDate(date) => {
            query.date = date;
            2
        },
        Part::Size(size) => {
            if let Some(filter) = size {
                query.size_filters.push(filter);
            }
            1
        },
        Part::User(user) => {
            query.user = Some(user);
            1
        },
        Part::NextUser(user) => {
            query.user = Some(user);
            2
        },
        Part::Category(category) => {
            query.category = Some(category);
            1
        },
        Part::NextCategory(category) => {
            query.category = Some(category);
            2
        },
        Part::Term(term) => {
            proof {
                text::lemma_texts_push(terms, term);
            }
            query.terms.push(term);
            1
        },
    };
    assert(query@ =~= with_part(was, p));
    taken
}

/// Parses a raw input string as a file-search query.
pub fn parse_search(raw: &str, tokens: &Vec<String>) -> (r: SearchQuery)
    ensures
        r@ == query_of(raw@, text::texts(tokens@)),
{
    let mut query = SearchQuery {
        raw: raw.to_owned(),
        terms: Vec::new(),
        file_type: None,
        extension: None,
        category: None,
        user: None,
        date: None,
        size_filters: Vec::new(),
        links_flag: false,
        image_previews_flag: false,
        sort_by_size: false,
        bypass_telegram_limit: false,
    };
    assert(query@ =~= models::QueryView::empty(raw@));
    let ghost all = text::texts(tokens@);
    let mut index: usize = 0;
    while index < tokens.len()
        invariant
            index <= tokens.len(),
            all == text::texts(tokens@),
            query_of(raw@, all) == query_from(query@, all, index as int),
        decreases tokens.len() - index,
    {
        let token = tokens[index].as_str();
        let lower = normalize_alias(token);
        let next: Option<&str> = if tokens.len() - index > 1 {
            Some(tokens[index + 1].as_str())
        } else {
            None
        };
        assert(text::opt_slice(next) == token_at(all, index + 1));
        let part = classify(token, lower.as_str(), next);
        index += add_part(&mut query, part);
    }
    query
}

/// The name of a category search, given the lower-case forms of the first token and of the
/// prefix in it.
pub open spec fn category_search(
    tokens: Seq<Seq<char>>,
    first_alias: Seq<char>,
    prefix_alias: Seq<char>,
) -> Option<Seq<char>> {
    let value = category_value(tokens[0]);
    if value is Some && category_word(prefix_alias) && (value->0).1.len() > 0 {
        Some(category_name((value->0).1))
    } else if category_word(text::drop_trailing(first_alias, text::just(':'))) && tokens.len() > 1 {
        Some(text::joined(tokens.skip(1), " "@))
    } else {
        None
    }
}

/// Detects a top-level category search prefix, given the lower-case forms of the first token and
/// of the prefix in it.
pub fn find_category_search(tokens: &Vec<String>, first_alias: &str, prefix_alias: &str) -> (r:
    Option<String>)
    requires
        tokens@.len() > 0,
    ensures
        text::opt_text(r) == category_search(
            text::texts(tokens@),
            first_alias@,
            prefix_alias@,
        ),
{
    if let Some((_, value)) = parse_category_prefix(tokens[0].as_str()) {
        if is_category_word(prefix_alias) && value.as_str().unicode_len() > 0 {
            return Some(normalize_category(value.as_str()));
        }
    }
    if is_category_word(text::trim_end_char(first_alias, ':').as_str()) && tokens.len() > 1 {
        let mut rest: Vec<String> = Vec::new();
        let mut i: usize = 1;
        while i < tokens.len()
            invariant
                1 <= i <= tokens.len(),
                rest@ == tokens@.subrange(1, i as int),
            decreases tokens.len() - i,
        {
            rest.push(tokens[i].clone());
            assert(tokens@.subrange(1, i + 1) =~= tokens@.subrange(1, i as int).push(
                tokens@[i as int],
            ));
            i += 1;
        }
        assert(text::texts(rest@) =~= text::texts(tokens@).skip(1));
        return Some(text::join(&rest, " "));
    }
    None
}

/// Detects a top-level category search prefix.
pub fn parse_category_search(tokens: &Vec<String>) -> (r: Option<String>)
    requires
        tokens@.len() > 0,
    ensures
        text::opt_text(r) == category_search(
            text::texts(tokens@),
            alias(tokens@[0]@),
            alias(before_colon(tokens@[0]@)),
        ),
{
    let first = normalize_alias(tokens[0].as_str());
    let prefix = match text::split_once(tokens[0].as_str(), ':') {
        Some((prefix, _)) => prefix,
        None => tokens[0].clone(),
    };
    let prefix = normalize_alias(prefix.as_str());
    find_category_search(tokens, first.as_str(), prefix.as_str())
}

/// The intent of an input.
pub open spec fn intent_of(input: Seq<char>) -> models::IntentView {
    let t = text::trimmed(input);
    let tokens = tokens_of(t);
    if t == ""@ {
        models::IntentView::Empty
    } else if t == "/start"@ || t == "/help"@ || t == "help"@ {
        models::IntentView::Help
    } else if t == "/settings"@ || t == "/preferences"@ || t == "/prefs"@ || t == "settings"@ || t
        == "prefs"@ || t == "preferences"@ {
        models::IntentView::Preferences
    } else if t == "/stat"@ || t == "/stats"@ || t == "stat"@ || t == "stats"@ {
        models::IntentView::Stats
    } else if tokens.len() == 0 {
        models::IntentView::Empty
    } else {
        match category_search(tokens, alias(tokens[0]), alias(before_colon(tokens[0]))) {
            Some(name) => models::IntentView::CategorySearch(name),
            None => models::IntentView::FileSearch(query_of(t, tokens)),
        }
    }
}

/// Parses a Telegram or CLI command into a structured intent.
pub fn parse_intent(input: &str) -> (r: Intent)
    ensures
        r@ == intent_of(input@),
{
    let trimmed = text::trim(input);
    let t = trimmed.as_str();
    if text::same(t, "") {
        return Intent::Empty;
    }
    if text::same(t, "/start") || text::same(t, "/help") || text::same(t, "help") {
        return Intent::Help;
    }
    if text::same(t, "/settings") || text::same(t, "/preferences") || text::same(t, "/prefs")
        || text::same(t, "settings") || text::same(t, "prefs") || text::same(t, "preferences") {
        return Intent::Preferences;
    }
    if text::same(t, "/stat") || text::same(t, "/stats") || text::same(t, "stat") || text::same(
        t,
        "stats",
    ) {
        return Intent::Stats;
    }
    let tokens = tokenize(t);
    proof {
        assert(text::texts(tokens@).len() == tokens@.len());
    }
    if tokens.len() == 0 {
        return Intent::Empty;
    }
    if let Some(name) = parse_category_search(&tokens) {
        return Intent::CategorySearch(name);
    }
    Intent::FileSearch(parse_search(t, &tokens))
}

/// A search keeps the input it was parsed from.
pub proof fn law_search_keeps_raw(raw: Seq<char>, tokens: Seq<Seq<char>>)
    ensures
        query_of(raw, tokens).raw == raw,
{
    lemma_parts_keep_raw(models::QueryView::empty(raw), tokens, 0);
}

proof fn lemma_parts_keep_raw(q: models::QueryView, tokens: Seq<Seq<char>>, i: int)
    ensures
        query_from(q, tokens, i).raw == q.raw,
    decreases tokens.len() - i,
{
    if 0 <= i < tokens.len() {
        let p = part_at(tokens, i);
        lemma_parts_keep_raw(with_part(q, p), tokens, i + tokens_taken(p));
    }
}

/// Every term of a search is a token, or stands behind a colon of one, and a search has no
/// more terms than tokens.
pub proof fn law_search_terms_come_from_tokens(raw: Seq<char>, tokens: Seq<Seq<char>>)
    ensures
        query_of(raw, tokens).terms.len() <= tokens.len(),
        forall|k: int|
            0 <= k < query_of(raw, tokens).terms.len() ==> term_has_origin(
                #[trigger] query_of(raw, tokens).terms[k],
                tokens,
            ),
{
    lemma_term_origins(models::QueryView::empty(raw), tokens, 0);
}

/// True of a term that is a token or stands behind the first colon of one.
pub open spec fn term_has_origin(term: Seq<char>, tokens: Seq<Seq<char>>) -> bool {
    exists|i: int|
        0 <= i < tokens.len() && (term == #[trigger] tokens[i] || term == term_behind_colon(
            tokens[i],
        ))
}

proof fn lemma_term_origins(q: models::QueryView, tokens: Seq<Seq<char>>, i: int)
    requires
        0 <= i,
        q.terms.len() <= i,
        forall|k: int| 0 <= k < q.terms.len() ==> term_has_origin(#[trigger] q.terms[k], tokens),
    ensures
        query_from(q, tokens, i).terms.len() <= (if i < tokens.len() {
            tokens.len() as int
        } else {
            i
        }),
        i <= tokens.len() ==> query_from(q, tokens, i).terms.len() <= tokens.len(),
        forall|k: int|
            0 <= k < query_from(q, tokens, i).terms.len() ==> term_has_origin(
                #[trigger] query_from(q, tokens, i).terms[k],
                tokens,
            ),
    decreases tokens.len() - i,
{
    if i < tokens.len() {
        let p = part_at(tokens, i);
        let r = with_part(q, p);
        assert forall|k: int| 0 <= k < r.terms.len() implies term_has_origin(
            #[trigger] r.terms[k],
            tokens,
        ) by {
            if k < q.terms.len() {
                assert(r.terms[k] == q.terms[k]);
            } else {
                assert(r.terms[k] == tokens[i] || r.terms[k] == term_behind_colon(tokens[i]));
            }
        }
        lemma_term_origins(r, tokens, i + tokens_taken(p));
    }
}

} // verus!
