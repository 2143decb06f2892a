//! Telegram messages: captions, buttons, previews and inline results.

use vstd::prelude::*;
use vstd::string::*;
use crate::escaping;
use crate::models::{
    CategoryHit, CategoryInfo, DeliveryMode, FileHit, Preferences, TELEGRAM_REMOTE_URL_LIMIT_BYTES,
};
use crate::models;
use crate::numbers;
use crate::pagination::BUTTON_PAGE_SIZE;
use crate::pagination;
use crate::rounding;
use crate::text;

verus! {

/// Telegram's documented maximum photo size when Telegram fetches a URL.
pub const TELEGRAM_PHOTO_URL_LIMIT_BYTES: u64 = 5 * 1024 * 1024;

/// Telegram's documented maximum sum of width and height for photos.
pub const TELEGRAM_PHOTO_MAX_DIMENSION_SUM: u64 = 10_000;

/// Telegram's documented maximum width/height ratio for photos.
pub const TELEGRAM_PHOTO_MAX_ASPECT_RATIO: u64 = 20;

/// Telegram's documented photo caption limit after entity parsing.
pub const TELEGRAM_PHOTO_CAPTION_LIMIT_CHARS: usize = 1024;

/// Telegram's documented rich message text limit.
pub const TELEGRAM_RICH_MESSAGE_LIMIT_CHARS: usize = 32_768;

/// Number of results in an inline answer at most.
pub const MAX_INLINE_RESULTS: usize = 50;

// Updates.

/// Telegram update subset handled by this bot.
#[derive(Debug)]
pub struct Update {
    /// Monotonic Telegram update id used to suppress webhook retries.
    pub update_id: Option<i64>,
    /// Incoming message.
    pub message: Option<Message>,
    /// Callback query from inline keyboard.
    pub callback_query: Option<CallbackQuery>,
    /// Inline query used as `@bot query`.
    pub inline_query: Option<InlineQuery>,
}

/// Telegram message subset used by the app.
#[derive(Debug)]
pub struct Message {
    /// Telegram message id, present for editable callback messages.
    pub message_id: Option<i64>,
    /// Chat object.
    pub chat: Chat,
    /// Sender.
    pub from: Option<User>,
    /// Message text.
    pub text: Option<String>,
    /// Location that the message shares.
    pub location: Option<Location>,
}

/// Telegram chat subset.
#[derive(Debug)]
pub struct Chat {
    /// Chat id.
    pub id: i64,
}

/// Telegram user subset.
#[derive(Debug)]
pub struct User {
    /// User id.
    pub id: i64,
}

/// Telegram callback query subset.
#[derive(Debug)]
pub struct CallbackQuery {
    /// Callback query id.
    pub id: String,
    /// Sender.
    pub from: User,
    /// Message that owns the button.
    pub message: Option<Message>,
    /// Callback data.
    pub data: Option<String>,
}

/// Telegram inline query subset.
#[derive(Debug)]
pub struct InlineQuery {
    /// Inline query id.
    pub id: String,
    /// Sender.
    pub from: User,
    /// Query text.
    pub query: String,
    /// Offset requested by Telegram for inline result pagination.
    pub offset: String,
    /// User location when BotFather inline location data is enabled.
    pub location: Option<Location>,
}

/// A place, with its degrees written as text.
#[derive(Debug)]
pub struct Location {
    /// Latitude in degrees.
    pub latitude: String,
    /// Longitude in degrees.
    pub longitude: String,
    /// Latitude in degrees, with five decimals.
    pub latitude_short: String,
    /// Longitude in degrees, with five decimals.
    pub longitude_short: String,
}

// Markup.

/// Escapes text for Telegram HTML parse mode.
pub fn escape_text(value: &str) -> (r: String)
    ensures
        r@ == escaping::html_text(value@),
{
    escaping::encode_text(value)
}

/// Escapes an attribute value for Telegram HTML parse mode.
pub fn escape_attr(value: &str) -> (r: String)
    ensures
        r@ == escaping::html_attribute(value@),
{
    escaping::encode_attribute(value)
}

/// A link.
pub open spec fn link(url: Seq<char>, label: Seq<char>) -> Seq<char> {
    "<a href=\""@ + escaping::html_attribute(url) + "\">"@ + escaping::html_text(label) + "</a>"@
}

/// Writes a link.
pub fn html_link(url: &str, label: &str) -> (r: String)
    ensures
        r@ == link(url@, label@),
{
    "<a href=\"".to_owned().concat(escape_attr(url).as_str()).concat("\">").concat(
        escape_text(label).as_str(),
    ).concat("</a>")
}

/// The link to a file's page on Commons.
pub open spec fn link_to_file(file: FileHit) -> Option<Seq<char>> {
    match file.description_url {
        Some(url) => Some(link(url@, file.file_name@)),
        None => None,
    }
}

/// Builds a compact HTML link to a Commons file page.
pub fn file_link(file: &FileHit) -> (r: Option<String>)
    ensures
        text::opt_text(r) == link_to_file(*file),
{
    match &file.description_url {
        Some(url) => Some(html_link(url.as_str(), file.file_name.as_str())),
        None => None,
    }
}

/// A text with its white space collapsed to single spaces.
pub open spec fn squeezed(s: Seq<char>) -> Seq<char> {
    text::joined(text::words(s), " "@)
}

/// Collapses white space to single spaces.
fn squeeze(value: &str) -> (r: String)
    ensures
        r@ == squeezed(value@),
{
    text::join(&text::split_words(value), " ")
}

/// Collapses whitespace and truncates visible text without cutting HTML markup.
pub fn truncate_visible_text(value: &str, max_chars: usize) -> (r: String)
    ensures
        r@ == text::shortened(squeezed(value@), max_chars as int),
        max_chars >= 3 ==> r@.len() <= max_chars,
{
    proof {
        reveal_strlit("...");
    }
    text::shorten(squeeze(value).as_str(), max_chars)
}

/// A text, shortened in compact captions.
pub open spec fn fitted(s: Seq<char>, compact: bool, max: int) -> Seq<char> {
    if compact {
        text::shortened(squeezed(s), max)
    } else {
        s
    }
}

/// Shortens a text for compact captions.
fn fit(value: &str, compact: bool, max_chars: usize) -> (r: String)
    ensures
        r@ == fitted(value@, compact, max_chars as int),
{
    if compact {
        truncate_visible_text(value, max_chars)
    } else {
        value.to_owned()
    }
}

// Sizes.

/// The tenths of a number of bytes in a unit, nearest, the even ones of two.
pub open spec fn unit_tenths(bytes: nat, unit: nat) -> nat {
    rounding::nearest(10 * rounding::rounded_count(bytes), unit)
}

/// A number of tenths, written with one decimal.
pub open spec fn written_tenths(t: nat) -> Seq<char> {
    numbers::numeral(t / 10) + "."@ + numbers::numeral(t % 10)
}

/// A byte count as it is shown.
pub open spec fn shown_bytes(bytes: nat) -> Seq<char> {
    let value = rounding::rounded_count(bytes);
    if value < 1024 {
        numbers::numeral(bytes) + " B"@
    } else if value < 1024 * 1024 {
        written_tenths(unit_tenths(bytes, 1024)) + " KB"@
    } else if value < 1024 * 1024 * 1024 {
        written_tenths(unit_tenths(bytes, 1024 * 1024)) + " MB"@
    } else {
        written_tenths(unit_tenths(bytes, 1024 * 1024 * 1024)) + " GB"@
    }
}

/// Writes a number of bytes in a unit, with one decimal.
fn write_tenths(value: u128, unit: u128) -> (r: String)
    requires
        1024 <= unit <= 1024 * 1024 * 1024,
        value <= 0x1_0000_0000_0000_0000,
    ensures
        r@ == written_tenths(rounding::nearest((10 * value) as nat, unit as nat)),
{
    let tenths: u128 = rounding::nearest_whole(10 * value, unit);
    proof {
        let q = (10 * value) / unit as int;
        assert(q <= 10 * value / 1024) by (nonlinear_arith)
            requires
                q == (10 * value) / unit as int,
                unit >= 1024,
                value >= 0,
        ;
    }
    numbers::decimal((tenths / 10) as u64).concat(".").concat(
        numbers::decimal((tenths % 10) as u64).as_str(),
    )
}

/// Formats a byte count compactly.
pub fn human_bytes(bytes: u64) -> (r: String)
    ensures
        r@ == shown_bytes(bytes as nat),
{
    let value: u128 = rounding::round_count(bytes);
    if value < 1024 {
        numbers::decimal(bytes).concat(" B")
    } else if value < 1024 * 1024 {
        write_tenths(value, 1024).concat(" KB")
    } else if value < 1024 * 1024 * 1024 {
        write_tenths(value, 1024 * 1024).concat(" MB")
    } else {
        write_tenths(value, 1024 * 1024 * 1024).concat(" GB")
    }
}

// Metadata lines.

/// A list of one text or none.
pub open spec fn line(s: Option<Seq<char>>) -> Seq<Seq<char>> {
    match s {
        Some(t) => seq![t],
        None => seq![],
    }
}

/// Adds a line, where there is one.
fn push_line(lines: &mut Vec<String>, s: Option<String>)
    ensures
        text::texts(final(lines)@) == text::texts(old(lines)@) + line(text::opt_text(s)),
{
    let ghost was = lines@;
    if let Some(t) = s {
        proof {
            text::lemma_texts_push(was, t);
        }
        lines.push(t);
    }
    assert(text::texts(lines@) =~= text::texts(was) + line(text::opt_text(s)));
}

/// The line with a file's name.
pub open spec fn title_line(file: FileHit, compact: bool) -> Seq<char> {
    let name = fitted(file.file_name@, compact, 120);
    match file.description_url {
        Some(url) => "<b>"@ + link(url@, name) + "</b>"@,
        None => "<b>"@ + escaping::html_text(name) + "</b>"@,
    }
}

/// Builds the line with a file's name.
fn format_title_line(file: &FileHit, compact: bool) -> (r: String)
    ensures
        r@ == title_line(*file, compact),
{
    let name = fit(file.file_name.as_str(), compact, 120);
    match &file.description_url {
        Some(url) => "<b>".to_owned().concat(
            html_link(url.as_str(), name.as_str()).as_str(),
        ).concat("</b>"),
        None => "<b>".to_owned().concat(escape_text(name.as_str()).as_str()).concat("</b>"),
    }
}

/// The line with a file's license.
pub open spec fn license_line(file: FileHit, compact: bool) -> Option<Seq<char>> {
    match file.license_short_name {
        Some(license) => {
            let name = fitted(license@, compact, 40);
            match file.license_url {
                Some(url) => if compact {
                    Some(link(url@, name))
                } else {
                    Some("License: "@ + link(url@, name))
                },
                None => Some("License: "@ + escaping::html_text(name)),
            }
        },
        None => None,
    }
}

/// Builds the line with a file's license.
fn format_license_line(file: &FileHit, compact: bool) -> (r: Option<String>)
    ensures
        text::opt_text(r) == license_line(*file, compact),
{
    match &file.license_short_name {
        Some(license) => {
            let name = fit(license.as_str(), compact, 40);
            match &file.license_url {
                Some(url) => {
                    let linked = html_link(url.as_str(), name.as_str());
                    if compact {
                        Some(linked)
                    } else {
                        Some("License: ".to_owned().concat(linked.as_str()))
                    }
                },
                None => Some("License: ".to_owned().concat(escape_text(name.as_str()).as_str())),
            }
        },
        None => None,
    }
}

/// True of a text that is worth a line: not empty, and in compact captions not blank.
pub open spec fn worth_a_line(s: Seq<char>, compact: bool) -> bool {
    if compact {
        text::trimmed(s).len() > 0
    } else {
        s.len() > 0
    }
}

/// Returns true for a text that is worth a line.
fn is_worth_a_line(value: &str, compact: bool) -> (r: bool)
    ensures
        r == worth_a_line(value@, compact),
{
    if compact {
        !text::blank(value)
    } else {
        value.unicode_len() > 0
    }
}

/// The line with a file's caption.
pub open spec fn caption_line(file: FileHit, compact: bool) -> Option<Seq<char>> {
    match file.caption_text {
        Some(s) => if worth_a_line(s@, compact) {
            Some("Caption: "@ + escaping::html_text(fitted(s@, compact, 180)))
        } else {
            None
        },
        None => None,
    }
}

/// Builds the line with a file's caption.
fn format_caption_line(file: &FileHit, compact: bool) -> (r: Option<String>)
    ensures
        text::opt_text(r) == caption_line(*file, compact),
{
    match &file.caption_text {
        Some(s) => if is_worth_a_line(s.as_str(), compact) {
            let shown = fit(s.as_str(), compact, 180);
            Some("Caption: ".to_owned().concat(escape_text(shown.as_str()).as_str()))
        } else {
            None
        },
        None => None,
    }
}

/// A text as it is compared: with collapsed white space and in lower case.
pub open spec fn display_key(s: Seq<char>) -> Seq<char> {
    text::lower_text(squeezed(s))
}

/// Normalizes visible metadata text for duplicate checks.
pub fn normalized_display_text(value: &str) -> (r: String)
    ensures
        r@ == display_key(value@),
{
    text::to_lowercase(squeeze(value).as_str())
}

/// Returns true when two metadata strings would read the same to a user.
pub fn same_display_text(left: &str, right: &str) -> (r: bool)
    ensures
        r == (display_key(left@) == display_key(right@)),
{
    text::same(normalized_display_text(left).as_str(), normalized_display_text(right).as_str())
}

/// A name as it is compared: with underscores as spaces.
pub open spec fn credit_key(s: Seq<char>) -> Seq<char> {
    display_key(text::expanded(s, text::substitution('_', " "@)))
}

/// Normalizes visible credit text for uploader/author duplicate checks.
pub fn normalized_credit_text(value: &str) -> (r: String)
    ensures
        r@ == credit_key(value@),
{
    normalized_display_text(text::replace_char(value, '_', " ").as_str())
}

/// True where the uploader and the author are one person.
pub open spec fn same_credit(uploader: Option<Seq<char>>, author: Seq<char>) -> bool {
    uploader is Some && credit_key(uploader->0) == credit_key(author)
}

/// Returns true when uploader and author metadata name the same person.
pub fn same_uploader_and_author(uploader: Option<&str>, author: &str) -> (r: bool)
    ensures
        r == same_credit(text::opt_slice(uploader), author@),
{
    match uploader {
        Some(u) => text::same(
            normalized_credit_text(u).as_str(),
            normalized_credit_text(author).as_str(),
        ),
        None => false,
    }
}

/// The line with a file's description, unless that reads as the caption does.
pub open spec fn description_line(file: FileHit, compact: bool) -> Option<Seq<char>> {
    match file.description_text {
        Some(s) => if worth_a_line(s@, compact) && !(file.caption_text is Some && display_key(
            (file.caption_text->0)@,
        ) == display_key(s@)) {
            Some("Description: "@ + escaping::html_text(fitted(s@, compact, 220)))
        } else {
            None
        },
        None => None,
    }
}

/// Builds the line with a file's description.
fn format_description_line(file: &FileHit, compact: bool) -> (r: Option<String>)
    ensures
        text::opt_text(r) == description_line(*file, compact),
{
    match &file.description_text {
        Some(s) => {
            let repeats: bool = match &file.caption_text {
                Some(caption) => same_display_text(caption.as_str(), s.as_str()),
                None => false,
            };
            if is_worth_a_line(s.as_str(), compact) && !repeats {
                let shown = fit(s.as_str(), compact, 220);
                Some("Description: ".to_owned().concat(escape_text(shown.as_str()).as_str()))
            } else {
                None
            }
        },
        None => None,
    }
}

/// The line with a file's uploader.
pub open spec fn uploader_line(file: FileHit, compact: bool) -> Option<Seq<char>> {
    match file.uploader {
        Some(u) => Some(
            "Uploader: <a href=\"https://commons.wikimedia.org/wiki/User:"@
                + escaping::percent_encoded(u@) + "\">"@ + escaping::html_text(
                fitted(u@, compact, 60),
            ) + "</a>"@,
        ),
        None => None,
    }
}

/// Builds the line with a file's uploader.
fn format_uploader_line(file: &FileHit, compact: bool) -> (r: Option<String>)
    ensures
        text::opt_text(r) == uploader_line(*file, compact),
{
    match &file.uploader {
        Some(u) => {
            let shown = fit(u.as_str(), compact, 60);
            Some(
                "Uploader: <a href=\"https://commons.wikimedia.org/wiki/User:".to_owned().concat(
                    escaping::url_encode(u.as_str()).as_str(),
                ).concat("\">").concat(escape_text(shown.as_str()).as_str()).concat("</a>"),
            )
        },
        None => None,
    }
}

/// The line with a file's author, unless that is the uploader.
pub open spec fn author_line(file: FileHit, compact: bool) -> Option<Seq<char>> {
    match file.artist {
        Some(a) => if same_credit(text::opt_text(file.uploader), a@) {
            None
        } else {
            Some("Author: "@ + escaping::html_text(fitted(a@, compact, 90)))
        },
        None => None,
    }
}

/// Builds the line with a file's author.
fn format_author_line(file: &FileHit, compact: bool) -> (r: Option<String>)
    ensures
        text::opt_text(r) == author_line(*file, compact),
{
    match &file.artist {
        Some(a) => {
            let uploader: Option<&str> = match &file.uploader {
                Some(u) => Some(u.as_str()),
                None => None,
            };
            if same_uploader_and_author(uploader, a.as_str()) {
                None
            } else {
                let shown = fit(a.as_str(), compact, 90);
                Some("Author: ".to_owned().concat(escape_text(shown.as_str()).as_str()))
            }
        },
        None => None,
    }
}

/// The line with a file's upload time.
pub open spec fn uploaded_line(file: FileHit) -> Option<Seq<char>> {
    match file.timestamp {
        Some(t) => Some("Uploaded: "@ + escaping::html_text(t@)),
        None => None,
    }
}

/// Builds the line with a file's upload time.
fn format_uploaded_line(file: &FileHit) -> (r: Option<String>)
    ensures
        text::opt_text(r) == uploaded_line(*file),
{
    match &file.timestamp {
        Some(t) => Some("Uploaded: ".to_owned().concat(escape_text(t.as_str()).as_str())),
        None => None,
    }
}

/// The line with a file's date.
pub open spec fn date_line(file: FileHit, compact: bool) -> Option<Seq<char>> {
    match file.date_text {
        Some(d) => Some("Date: "@ + escaping::html_text(fitted(d@, compact, 60))),
        None => None,
    }
}

/// Builds the line with a file's date.
fn format_date_line(file: &FileHit, compact: bool) -> (r: Option<String>)
    ensures
        text::opt_text(r) == date_line(*file, compact),
{
    match &file.date_text {
        Some(d) => {
            let shown = fit(d.as_str(), compact, 60);
            Some("Date: ".to_owned().concat(escape_text(shown.as_str()).as_str()))
        },
        None => None,
    }
}

/// True where width and height are meaningful visual dimensions.
pub open spec fn visual(file: FileHit, width: u64, height: u64) -> bool {
    &&& width != 0 && height != 0
    &&& file.mime is Some
    &&& {
        let m = (file.mime->0)@;
        ||| text::begins(m, "image/"@)
        ||| text::begins(m, "video/"@)
        ||| m == "application/pdf"@
        ||| m == "image/vnd.djvu"@
    }
}

/// Returns true when width and height are meaningful visual dimensions.
pub fn file_has_visual_dimensions(file: &FileHit, width: u64, height: u64) -> (r: bool)
    ensures
        r == visual(*file, width, height),
{
    if width == 0 || height == 0 {
        return false;
    }
    match &file.mime {
        Some(m) => text::starts_with(m.as_str(), "image/") || text::starts_with(
            m.as_str(),
            "video/",
        ) || text::same(m.as_str(), "application/pdf") || text::same(m.as_str(), "image/vnd.djvu"),
        None => false,
    }
}

/// The line with a file's dimensions.
pub open spec fn dimensions_line(file: FileHit) -> Option<Seq<char>> {
    if file.width is Some && file.height is Some && visual(file, file.width->0, file.height->0) {
        Some(
            "Dimensions: "@ + numbers::numeral(file.width->0 as nat) + " x "@ + numbers::numeral(
                file.height->0 as nat,
            ),
        )
    } else {
        None
    }
}

/// Builds the line with a file's dimensions.
fn format_dimensions_line(file: &FileHit) -> (r: Option<String>)
    ensures
        text::opt_text(r) == dimensions_line(*file),
{
    match (file.width, file.height) {
        (Some(width), Some(height)) => if file_has_visual_dimensions(file, width, height) {
            Some(
                "Dimensions: ".to_owned().concat(numbers::decimal(width).as_str()).concat(
                    " x ",
                ).concat(numbers::decimal(height).as_str()),
            )
        } else {
            None
        },
        _ => None,
    }
}

/// The address of a search for a camera model.
pub open spec fn camera_address(model: Seq<char>) -> Seq<char> {
    "https://en.wikipedia.org/wiki/Special:Search?search="@ + escaping::percent_encoded(model)
}

/// Builds a stable search URL for a raw camera model string.
pub fn camera_model_url(model: &str) -> (r: String)
    ensures
        r@ == camera_address(model@),
{
    "https://en.wikipedia.org/wiki/Special:Search?search=".to_owned().concat(
        escaping::url_encode(model).as_str(),
    )
}

/// The line with a camera model.
pub open spec fn camera_line(file: FileHit, compact: bool) -> Option<Seq<char>> {
    match file.camera_model {
        Some(m) => if text::trimmed(m@).len() > 0 {
            Some("Camera model: "@ + link(camera_address(m@), fitted(m@, compact, 60)))
        } else {
            None
        },
        None => None,
    }
}

/// Formats a clickable camera model metadata line.
fn format_camera_line(file: &FileHit, compact: bool) -> (r: Option<String>)
    ensures
        text::opt_text(r) == camera_line(*file, compact),
{
    match &file.camera_model {
        Some(m) => if text::blank(m.as_str()) {
            None
        } else {
            let shown = fit(m.as_str(), compact, 60);
            Some(
                "Camera model: ".to_owned().concat(
                    html_link(camera_model_url(m.as_str()).as_str(), shown.as_str()).as_str(),
                ),
            )
        },
        None => None,
    }
}

/// The line with a camera setting.
pub open spec fn exif_line(
    label: Seq<char>,
    url: Seq<char>,
    value: Option<String>,
    compact: bool,
) -> Option<Seq<char>> {
    match value {
        Some(v) => if text::trimmed(v@).len() > 0 {
            Some(
                link(url, label) + ": "@ + escaping::html_text(
                    fitted(text::trimmed(v@), compact, 40),
                ),
            )
        } else {
            None
        },
        None => None,
    }
}

/// Formats one linked EXIF label and escaped value.
fn format_exif_line(label: &str, url: &str, value: &Option<String>, compact: bool) -> (r: Option<
    String,
>)
    ensures
        text::opt_text(r) == exif_line(label@, url@, *value, compact),
{
    match value {
        Some(v) => {
            let trimmed = text::trim(v.as_str());
            if trimmed.as_str().unicode_len() == 0 {
                return None;
            }
            let shown = fit(trimmed.as_str(), compact, 40);
            Some(html_link(url, label).concat(": ").concat(escape_text(shown.as_str()).as_str()))
        },
        None => None,
    }
}

/// The lines with the camera settings of a file.
pub open spec fn exif_lines(file: FileHit, compact: bool) -> Seq<Seq<char>> {
    line(
        exif_line("F-number"@, "https://en.wikipedia.org/wiki/F-number"@, file.f_number, compact),
    ) + line(
        exif_line(
            "ISO speed rating"@,
            "https://en.wikipedia.org/wiki/Film_speed#Digital_camera_ISO_speed_and_exposure_index"@,
            file.iso_speed,
            compact,
        ),
    ) + line(
        exif_line(
            "Lens focal length"@,
            "https://en.wikipedia.org/wiki/Focal_length"@,
            file.focal_length,
            compact,
        ),
    ) + line(
        exif_line(
            "Exposure time"@,
            "https://en.wikipedia.org/wiki/Shutter_speed"@,
            file.exposure_time,
            compact,
        ),
    )
}

/// Adds the lines with the camera settings of a file.
fn push_exif_lines(lines: &mut Vec<String>, file: &FileHit, compact: bool)
    ensures
        text::texts(final(lines)@) == text::texts(old(lines)@) + exif_lines(*file, compact),
{
    let ghost was = text::texts(lines@);
    push_line(
        lines,
        format_exif_line(
            "F-number",
            "https://en.wikipedia.org/wiki/F-number",
            &file.f_number,
            compact,
        ),
    );
    push_line(
        lines,
        format_exif_line(
            "ISO speed rating",
            "https://en.wikipedia.org/wiki/Film_speed#Digital_camera_ISO_speed_and_exposure_index",
            &file.iso_speed,
            compact,
        ),
    );
    push_line(
        lines,
        format_exif_line(
            "Lens focal length",
            "https://en.wikipedia.org/wiki/Focal_length",
            &file.focal_length,
            compact,
        ),
    );
    push_line(
        lines,
        format_exif_line(
            "Exposure time",
            "https://en.wikipedia.org/wiki/Shutter_speed",
            &file.exposure_time,
            compact,
        ),
    );
    assert(text::texts(lines@) =~= was + exif_lines(*file, compact));
}

/// The line of a file that moves.
pub open spec fn animated_line(file: FileHit) -> Option<Seq<char>> {
    if file.animated {
        Some("Animated: yes"@)
    } else {
        None
    }
}

/// The line with a file's duration.
pub open spec fn duration_line(file: FileHit) -> Option<Seq<char>> {
    match file.duration_seconds {
        Some(d) => Some("Duration: "@ + d.one_decimal@ + " seconds"@),
        None => None,
    }
}

/// The line with the place of a file.
pub open spec fn place_line(file: FileHit) -> Option<Seq<char>> {
    match file.coordinates {
        Some(c) => Some(
            "Geolocation: <a href=\""@ + c.map_address() + "\">"@ + c.lat.six_decimals@ + ", "@
                + c.lon.six_decimals@ + "</a>"@,
        ),
        None => None,
    }
}

/// Builds the line with the place of a file.
fn format_place_line(file: &FileHit) -> (r: Option<String>)
    ensures
        text::opt_text(r) == place_line(*file),
{
    match &file.coordinates {
        Some(c) => Some(
            "Geolocation: <a href=\"".to_owned().concat(c.openstreetmap_url().as_str()).concat(
                "\">",
            ).concat(c.lat.six_decimals.as_str()).concat(", ").concat(
                c.lon.six_decimals.as_str(),
            ).concat("</a>"),
        ),
        None => None,
    }
}

/// The line with the number of a file's versions.
pub open spec fn versions_line(file: FileHit) -> Option<Seq<char>> {
    match file.version_count {
        Some(n) => if n > 1 {
            Some(numbers::numeral(n as nat) + " versions were uploaded"@)
        } else {
            None
        },
        None => None,
    }
}

/// Builds the line with the number of a file's versions.
fn format_versions_line(file: &FileHit) -> (r: Option<String>)
    ensures
        text::opt_text(r) == versions_line(*file),
{
    match file.version_count {
        Some(n) => if n > 1 {
            Some(numbers::decimal(n as u64).concat(" versions were uploaded"))
        } else {
            None
        },
        None => None,
    }
}

/// The line with a file's hash, where the user wants it.
pub open spec fn sha1_line(file: FileHit, show_sha1: bool) -> Option<Seq<char>> {
    match file.sha1 {
        Some(h) => if show_sha1 {
            Some("SHA-1: <code>"@ + escaping::html_text(h@) + "</code>"@)
        } else {
            None
        },
        None => None,
    }
}

/// Builds the line with a file's hash.
fn format_sha1_line(file: &FileHit, show_sha1: bool) -> (r: Option<String>)
    ensures
        text::opt_text(r) == sha1_line(*file, show_sha1),
{
    match &file.sha1 {
        Some(h) => if show_sha1 {
            Some(
                "SHA-1: <code>".to_owned().concat(escape_text(h.as_str()).as_str()).concat(
                    "</code>",
                ),
            )
        } else {
            None
        },
        None => None,
    }
}

/// The line with the link to a file's history.
pub open spec fn history_line(file: FileHit) -> Option<Seq<char>> {
    match file.history_address() {
        Some(url) => Some("<a href=\""@ + escaping::html_attribute(url) + "\">History</a>"@),
        None => None,
    }
}

/// Builds the line with the link to a file's history.
fn format_history_line(file: &FileHit) -> (r: Option<String>)
    ensures
        text::opt_text(r) == history_line(*file),
{
    match file.history_url() {
        Some(url) => Some(
            "<a href=\"".to_owned().concat(escape_attr(url.as_str()).as_str()).concat(
                "\">History</a>",
            ),
        ),
        None => None,
    }
}

/// The first lines about a file, up to the camera settings.
pub open spec fn leading_lines(file: FileHit, compact: bool) -> Seq<Seq<char>> {
    seq![title_line(file, compact)] + line(license_line(file, compact)) + line(
        caption_line(file, compact),
    ) + line(description_line(file, compact)) + line(uploader_line(file, compact)) + line(
        author_line(file, compact),
    ) + line(uploaded_line(file)) + line(date_line(file, compact)) + line(dimensions_line(file))
        + line(camera_line(file, compact)) + exif_lines(file, compact)
}

/// Builds the first lines about a file.
fn format_leading_lines(file: &FileHit, compact: bool) -> (r: Vec<String>)
    ensures
        text::texts(r@) == leading_lines(*file, compact),
{
    let mut lines: Vec<String> = Vec::new();
    assert(text::texts(lines@) =~= seq![]);
    push_line(&mut lines, Some(format_title_line(file, compact)));
    assert(text::texts(lines@) =~= seq![title_line(*file, compact)]);
    push_line(&mut lines, format_license_line(file, compact));
    push_line(&mut lines, format_caption_line(file, compact));
    push_line(&mut lines, format_description_line(file, compact));
    push_line(&mut lines, format_uploader_line(file, compact));
    push_line(&mut lines, format_author_line(file, compact));
    push_line(&mut lines, format_uploaded_line(file));
    push_line(&mut lines, format_date_line(file, compact));
    push_line(&mut lines, format_dimensions_line(file));
    push_line(&mut lines, format_camera_line(file, compact));
    push_exif_lines(&mut lines, file, compact);
    lines
}

/// The lines about a file.
pub open spec fn metadata_lines(file: FileHit, p: models::PreferencesModel) -> Seq<Seq<char>> {
    leading_lines(file, false) + line(animated_line(file)) + line(duration_line(file)) + line(
        place_line(file),
    ) + line(versions_line(file)) + line(sha1_line(file, p.show_sha1)) + line(history_line(file))
}

/// Builds file metadata lines before they are joined for Telegram.
pub fn format_file_metadata_lines(file: &FileHit, preferences: &Preferences) -> (r: Vec<String>)
    ensures
        text::texts(r@) == metadata_lines(*file, preferences@),
{
    let mut lines = format_leading_lines(file, false);
    let animated: Option<String> = if file.animated {
        Some("Animated: yes".to_owned())
    } else {
        None
    };
    push_line(&mut lines, animated);
    let duration: Option<String> = match &file.duration_seconds {
        Some(d) => Some("Duration: ".to_owned().concat(d.one_decimal.as_str()).concat(" seconds")),
        None => None,
    };
    push_line(&mut lines, duration);
    push_line(&mut lines, format_place_line(file));
    push_line(&mut lines, format_versions_line(file));
    push_line(&mut lines, format_sha1_line(file, preferences.show_sha1));
    push_line(&mut lines, format_history_line(file));
    lines
}

/// Formats file metadata as an HTML caption/message.
pub fn format_file_metadata(file: &FileHit, preferences: &Preferences) -> (r: String)
    ensures
        r@ == text::joined(metadata_lines(*file, preferences@), "\n"@),
{
    text::join(&format_file_metadata_lines(file, preferences), "\n")
}

/// The lines of a compact caption, before any is dropped.
pub open spec fn compact_lines(file: FileHit, p: models::PreferencesModel) -> Seq<Seq<char>> {
    leading_lines(file, true) + line(animated_line(file)) + line(place_line(file)) + line(
        versions_line(file),
    ) + line(sha1_line(file, p.show_sha1))
}

// Captions that fit.

/// The kinds of lines that are dropped first, in that order.
pub open spec fn low_priority(kind: int, s: Seq<char>) -> bool {
    if kind == 0 {
        text::holds(s, ">F-number</a>:"@) || text::begins(s, "F-number:"@)
    } else if kind == 1 {
        text::holds(s, ">ISO speed rating</a>:"@) || text::begins(s, "ISO speed rating:"@)
    } else if kind == 2 {
        text::holds(s, ">Lens focal length</a>:"@) || text::begins(s, "Lens focal length:"@)
    } else if kind == 3 {
        text::holds(s, ">Exposure time</a>:"@) || text::begins(s, "Exposure time:"@)
    } else {
        text::holds(s, ">History</a>"@) || s == "History"@
    }
}

/// Number of kinds of lines that are dropped first.
pub const LOW_PRIORITY_KINDS: usize = 5;

/// Returns true for a line of a kind that is dropped first.
fn is_low_priority(kind: usize, s: &str) -> (r: bool)
    ensures
        r == low_priority(kind as int, s@),
{
    if kind == 0 {
        text::contains(s, ">F-number</a>:") || text::starts_with(s, "F-number:")
    } else if kind == 1 {
        text::contains(s, ">ISO speed rating</a>:") || text::starts_with(s, "ISO speed rating:")
    } else if kind == 2 {
        text::contains(s, ">Lens focal length</a>:") || text::starts_with(s, "Lens focal length:")
    } else if kind == 3 {
        text::contains(s, ">Exposure time</a>:") || text::starts_with(s, "Exposure time:")
    } else {
        text::contains(s, ">History</a>") || text::same(s, "History")
    }
}

/// The first position from `i` on of a line of a kind, or the length.
pub open spec fn first_of_kind(lines: Seq<Seq<char>>, kind: int, i: int) -> int
    decreases lines.len() - i,
{
    if i >= lines.len() {
        lines.len() as int
    } else if low_priority(kind, lines[i]) {
        i
    } else {
        first_of_kind(lines, kind, i + 1)
    }
}

/// The lines without the first one of a kind.
pub open spec fn without_kind(lines: Seq<Seq<char>>, kind: int) -> Seq<Seq<char>> {
    let i = first_of_kind(lines, kind, 0);
    if i < lines.len() {
        lines.remove(i)
    } else {
        lines
    }
}

/// Removes the first caption row of a kind.
fn remove_first_of_kind(lines: &mut Vec<String>, kind: usize)
    ensures
        text::texts(final(lines)@) == without_kind(text::texts(old(lines)@), kind as int),
{
    let ghost was = lines@;
    let ghost all = text::texts(was);
    let mut i: usize = 0;
    while i < lines.len() && !is_low_priority(kind, lines[i].as_str())
        invariant
            i <= lines.len(),
            lines@ == was,
            all == text::texts(was),
            first_of_kind(all, kind as int, 0) == first_of_kind(all, kind as int, i as int),
        decreases lines.len() - i,
    {
        i += 1;
    }
    if i < lines.len() {
        assert(text::texts(was.remove(i as int)) =~= all.remove(i as int));
        lines.remove(i);
    }
}

/// A caption of lines.
pub open spec fn caption_of(lines: Seq<Seq<char>>) -> Seq<char> {
    text::joined(lines, "\n"@)
}

/// True of a caption that Telegram takes.
pub open spec fn caption_fits(caption: Seq<char>) -> bool {
    caption.len() <= TELEGRAM_PHOTO_CAPTION_LIMIT_CHARS
}

/// Returns true when a caption should not be sent as a Telegram photo caption.
pub fn caption_exceeds_photo_limit(caption: &str) -> (r: bool)
    ensures
        r == !caption_fits(caption@),
{
    caption.unicode_len() > TELEGRAM_PHOTO_CAPTION_LIMIT_CHARS
}

/// The lines that are left when lines of low priority are dropped, from a kind on, until the
/// caption fits.
pub open spec fn pruned(lines: Seq<Seq<char>>, kind: int) -> Seq<Seq<char>>
    decreases LOW_PRIORITY_KINDS - kind,
{
    if caption_fits(caption_of(lines)) || kind >= LOW_PRIORITY_KINDS {
        lines
    } else {
        pruned(without_kind(lines, kind), kind + 1)
    }
}

/// Drops low-priority metadata rows in a stable order, until the caption fits.
pub fn drop_low_priority_metadata_lines_until_fit(lines: &mut Vec<String>) -> (r: Option<String>)
    ensures
        text::texts(final(lines)@) == pruned(text::texts(old(lines)@), 0),
        text::opt_text(r) == ({
            let caption = caption_of(pruned(text::texts(old(lines)@), 0));
            if caption_fits(caption) {
                Some(caption)
            } else {
                None
            }
        }),
{
    let ghost all = text::texts(lines@);
    let mut kind: usize = 0;
    loop
        invariant
            kind <= LOW_PRIORITY_KINDS,
            all == text::texts(old(lines)@),
            pruned(all, 0) == pruned(text::texts(lines@), kind as int),
        decreases LOW_PRIORITY_KINDS - kind,
    {
        let caption = text::join(lines, "\n");
        if !caption_exceeds_photo_limit(caption.as_str()) {
            return Some(caption);
        }
        if kind == LOW_PRIORITY_KINDS {
            return None;
        }
        remove_first_of_kind(lines, kind);
        kind += 1;
    }
}

/// What stands for a file where no caption of it fits: a link to it, or its shortened name where
/// there is no link or the link does not fit either.
pub open spec fn caption_of_last_resort(file: FileHit) -> Seq<char> {
    match link_to_file(file) {
        Some(l) if caption_fits(l) => l,
        _ => escaping::html_text(text::shortened(squeezed(file.file_name@), 120)),
    }
}

/// Builds what stands for a file where no caption of it fits.
fn format_caption_of_last_resort(file: &FileHit) -> (r: String)
    ensures
        r@ == caption_of_last_resort(*file),
{
    if let Some(l) = file_link(file) {
        if !caption_exceeds_photo_limit(l.as_str()) {
            return l;
        }
    }
    escape_text(truncate_visible_text(file.file_name.as_str(), 120).as_str())
}

/// A character as HTML text takes at most five characters.
proof fn lemma_html_text_length(s: Seq<char>)
    ensures
        escaping::html_text(s).len() <= 5 * s.len(),
    decreases s.len(),
{
    if s.len() > 0 {
        lemma_html_text_length(s.drop_last());
        reveal_strlit("&amp;");
        reveal_strlit("&lt;");
        reveal_strlit("&gt;");
    }
}

/// The caption of last resort fits.
proof fn lemma_last_resort_fits(file: FileHit)
    ensures
        caption_fits(caption_of_last_resort(file)),
{
    reveal_strlit("...");
    lemma_html_text_length(text::shortened(squeezed(file.file_name@), 120));
}

/// The caption of lines that are dropped from the end until it fits.
pub open spec fn cut_caption(lines: Seq<Seq<char>>, file: FileHit) -> Seq<char>
    decreases lines.len(),
{
    if caption_fits(caption_of(lines)) {
        caption_of(lines)
    } else if lines.len() > 1 {
        cut_caption(lines.drop_last(), file)
    } else {
        caption_of_last_resort(file)
    }
}

/// Drops low-priority lines until the compact caption fits Telegram.
fn compact_caption_fit(all_lines: &Vec<String>, file: &FileHit) -> (r: String)
    ensures
        r@ == cut_caption(pruned(text::texts(all_lines@), 0), *file),
{
    let mut lines = text::clone_texts(all_lines);
    if let Some(caption) = drop_low_priority_metadata_lines_until_fit(&mut lines) {
        return caption;
    }
    loop
        invariant
            cut_caption(pruned(text::texts(all_lines@), 0), *file) == cut_caption(
                text::texts(lines@),
                *file,
            ),
        decreases lines@.len(),
    {
        let caption = text::join(&lines, "\n");
        if !caption_exceeds_photo_limit(caption.as_str()) {
            return caption;
        }
        if lines.len() <= 1 {
            return format_caption_of_last_resort(file);
        }
        let ghost was = lines@;
        lines.pop();
        assert(text::texts(lines@) =~= text::texts(was).drop_last());
    }
}

/// The compact caption of a file.
pub open spec fn compact_caption(file: FileHit, p: models::PreferencesModel) -> Seq<char> {
    cut_caption(pruned(compact_lines(file, p), 0), file)
}

/// Formats preview metadata compactly enough for Telegram photo captions.
pub fn compact_file_metadata_caption(file: &FileHit, preferences: &Preferences) -> (r: String)
    ensures
        r@ == compact_caption(*file, preferences@),
        caption_fits(r@),
{
    proof {
        lemma_cut_caption(pruned(compact_lines(*file, preferences@), 0), *file);
    }
    let mut lines = format_leading_lines(file, true);
    let animated: Option<String> = if file.animated {
        Some("Animated: yes".to_owned())
    } else {
        None
    };
    push_line(&mut lines, animated);
    push_line(&mut lines, format_place_line(file));
    push_line(&mut lines, format_versions_line(file));
    push_line(&mut lines, format_sha1_line(file, preferences.show_sha1));
    compact_caption_fit(&lines, file)
}

/// The caption of a file's photo.
pub open spec fn photo_caption(file: FileHit, p: models::PreferencesModel) -> Option<Seq<char>> {
    let lines = metadata_lines(file, p);
    if !p.show_preview_metadata {
        match link_to_file(file) {
            Some(_) => Some(caption_of_last_resort(file)),
            None => None,
        }
    } else if caption_fits(caption_of(pruned(lines, 0))) {
        Some(caption_of(pruned(lines, 0)))
    } else {
        Some(compact_caption(file, p))
    }
}

/// Fits metadata into a Telegram photo caption before using stronger compaction.
fn fit_file_metadata_photo_caption(file: &FileHit, preferences: &Preferences) -> (r: String)
    ensures
        r@ == ({
            let caption = caption_of(pruned(metadata_lines(*file, preferences@), 0));
            if caption_fits(caption) {
                caption
            } else {
                compact_caption(*file, preferences@)
            }
        }),
{
    let mut lines = format_file_metadata_lines(file, preferences);
    if let Some(caption) = drop_low_priority_metadata_lines_until_fit(&mut lines) {
        return caption;
    }
    compact_file_metadata_caption(file, preferences)
}

/// Builds the photo caption, shortening only when Telegram's caption limit requires it.
pub fn telegram_photo_caption(file: &FileHit, preferences: &Preferences) -> (r: Option<String>)
    ensures
        text::opt_text(r) == photo_caption(*file, preferences@),
        r is Some ==> caption_fits((r->0)@),
{
    proof {
        law_photo_caption_fits(*file, preferences@);
    }
    if !preferences.show_preview_metadata {
        return match file_link(file) {
            Some(_) => Some(format_caption_of_last_resort(file)),
            None => None,
        };
    }
    let caption = format_file_metadata(file, preferences);
    if caption_exceeds_photo_limit(caption.as_str()) {
        Some(fit_file_metadata_photo_caption(file, preferences))
    } else {
        Some(caption)
    }
}

/// The caption of a photo fits Telegram's limit, and with metadata there is one.
pub proof fn law_photo_caption_fits(file: FileHit, p: models::PreferencesModel)
    ensures
        p.show_preview_metadata ==> photo_caption(file, p) is Some,
        photo_caption(file, p) is Some ==> caption_fits(photo_caption(file, p)->0),
        caption_fits(compact_caption(file, p)),
{
    lemma_cut_caption(pruned(compact_lines(file, p), 0), file);
    lemma_last_resort_fits(file);
}

/// A caption whose lines are dropped until it fits does fit.
proof fn lemma_cut_caption(lines: Seq<Seq<char>>, file: FileHit)
    ensures
        caption_fits(cut_caption(lines, file)),
    decreases lines.len(),
{
    if !caption_fits(caption_of(lines)) {
        if lines.len() > 1 {
            lemma_cut_caption(lines.drop_last(), file);
        } else {
            lemma_last_resort_fits(file);
        }
    }
}

/// A caption that fits is not shortened: the one with metadata, and where metadata is not shown,
/// the link.
pub proof fn law_fitting_caption_is_kept(file: FileHit, p: models::PreferencesModel)
    ensures
        p.show_preview_metadata && caption_fits(caption_of(metadata_lines(file, p)))
            ==> photo_caption(file, p) == Some(caption_of(metadata_lines(file, p))),
        !p.show_preview_metadata && link_to_file(file) is Some && caption_fits(
            link_to_file(file)->0,
        ) ==> photo_caption(file, p) == link_to_file(file),
{
}

// Previews.

/// True where a photo's dimensions are within Telegram's limits.
pub open spec fn dimensions_fit(width: Option<u64>, height: Option<u64>) -> bool {
    match (width, height) {
        (Some(w), Some(h)) => {
            &&& w > 0 && h > 0
            &&& w + h <= TELEGRAM_PHOTO_MAX_DIMENSION_SUM
            &&& w <= TELEGRAM_PHOTO_MAX_ASPECT_RATIO * h
            &&& h <= TELEGRAM_PHOTO_MAX_ASPECT_RATIO * w
        },
        _ => false,
    }
}

/// Checks Telegram's documented photo dimensions and aspect-ratio limits.
pub fn dimensions_fit_telegram_photo_limits(width: Option<u64>, height: Option<u64>) -> (r: bool)
    ensures
        r == dimensions_fit(width, height),
{
    match (width, height) {
        (Some(w), Some(h)) => {
            if w == 0 || h == 0 {
                return false;
            }
            if w > TELEGRAM_PHOTO_MAX_DIMENSION_SUM || h > TELEGRAM_PHOTO_MAX_DIMENSION_SUM - w {
                return false;
            }
            w <= TELEGRAM_PHOTO_MAX_ASPECT_RATIO * h && h <= TELEGRAM_PHOTO_MAX_ASPECT_RATIO * w
        },
        _ => false,
    }
}

/// True where Telegram can take the original file as a photo.
pub open spec fn original_fits(file: FileHit) -> bool {
    &&& file.url is Some && text::begins((file.url->0)@, "https://"@)
    &&& 0 < file.size_bytes <= TELEGRAM_PHOTO_URL_LIMIT_BYTES
    &&& !file.animated
    &&& file.mime is Some && (file.mime->0)@ == "image/jpeg"@
    &&& dimensions_fit(file.width, file.height)
}

/// Returns true when the original Commons image should work as a Telegram photo URL.
pub fn original_image_fits_telegram_photo_url(file: &FileHit) -> (r: bool)
    ensures
        r == original_fits(*file),
{
    (match &file.url {
        Some(url) => text::starts_with(url.as_str(), "https://"),
        None => false,
    }) && file.size_bytes > 0 && file.size_bytes <= TELEGRAM_PHOTO_URL_LIMIT_BYTES && !file.animated
        && (match &file.mime {
        Some(mime) => text::same(mime.as_str(), "image/jpeg"),
        None => false,
    }) && dimensions_fit_telegram_photo_limits(file.width, file.height)
}

/// True of a file whose MIME type is that of an image.
pub open spec fn is_image(file: FileHit) -> bool {
    file.mime is Some && text::begins((file.mime->0)@, "image/"@)
}

/// Returns true for a file whose MIME type is that of an image.
pub fn has_image_mime(file: &FileHit) -> (r: bool)
    ensures
        r == is_image(*file),
{
    match &file.mime {
        Some(mime) => text::starts_with(mime.as_str(), "image/"),
        None => false,
    }
}

/// The addresses of a file's previews, the safest first: the thumbnail, then the original.
pub open spec fn preview_addresses(file: FileHit) -> Seq<Seq<char>> {
    let thumb = line(text::opt_text(file.thumb_url));
    if !is_image(file) {
        seq![]
    } else if original_fits(file) && !(file.thumb_url is Some && (file.thumb_url->0)@ == (
    file.url->0)@) {
        thumb.push((file.url->0)@)
    } else {
        thumb
    }
}

/// Lists Telegram-safe preview URLs from safest rendered thumbnail to original fallback.
pub fn telegram_preview_urls(file: &FileHit) -> (r: Vec<String>)
    ensures
        text::texts(r@) == preview_addresses(*file),
{
    let mut urls: Vec<String> = Vec::new();
    assert(text::texts(urls@) =~= seq![]);
    if !has_image_mime(file) {
        return urls;
    }
    push_line(&mut urls, text::clone_opt(&file.thumb_url));
    assert(text::texts(urls@) =~= line(text::opt_text(file.thumb_url)));
    if original_image_fits_telegram_photo_url(file) {
        if let Some(url) = &file.url {
            let known: bool = match &file.thumb_url {
                Some(thumb) => text::same(thumb.as_str(), url.as_str()),
                None => false,
            };
            if !known {
                let ghost was = text::texts(urls@);
                push_line(&mut urls, Some(url.clone()));
                assert(text::texts(urls@) =~= was.push(url@));
            }
        }
    }
    urls
}

/// The address of a file's safest preview.
pub open spec fn preview_address(file: FileHit) -> Option<Seq<char>> {
    if preview_addresses(file).len() > 0 {
        Some(preview_addresses(file)[0])
    } else {
        None
    }
}

/// Selects the safest image URL for a preview.
pub fn telegram_preview_url(file: &FileHit) -> (r: Option<String>)
    ensures
        text::opt_text(r) == preview_address(*file),
{
    let urls = telegram_preview_urls(file);
    proof {
        assert(text::texts(urls@).len() == urls@.len());
    }
    if urls.len() > 0 {
        Some(urls[0].clone())
    } else {
        None
    }
}

/// The first files that have a preview.
pub open spec fn with_preview(files: Seq<FileHit>, max: nat) -> Seq<FileHit>
    decreases files.len(),
{
    if files.len() == 0 {
        files
    } else {
        let head = with_preview(files.drop_last(), max);
        if head.len() < max && preview_address(files.last()) is Some {
            head.push(files.last())
        } else {
            head
        }
    }
}

/// Selects the first files that have a preview.
pub fn preview_files(files: &Vec<FileHit>, max_images: usize) -> (r: Vec<FileHit>)
    ensures
        r@ == with_preview(files@, max_images as nat),
{
    let mut out: Vec<FileHit> = Vec::new();
    let mut i: usize = 0;
    assert(files@.take(0) =~= seq![]);
    while i < files.len()
        invariant
            i <= files.len(),
            out@ == with_preview(files@.take(i as int), max_images as nat),
        decreases files.len() - i,
    {
        proof {
            assert(files@.take(i + 1).drop_last() =~= files@.take(i as int));
            assert(files@.take(i + 1).last() == files@[i as int]);
        }
        if out.len() < max_images && telegram_preview_url(&files[i]).is_some() {
            out.push(files[i].clone());
        }
        i += 1;
    }
    assert(files@.take(files.len() as int) =~= files@);
    out
}

/// A picture with a caption below it.
pub open spec fn figure(url: Seq<char>, caption: Seq<char>) -> Seq<char> {
    "<figure><img src=\""@ + escaping::html_attribute(url) + "\"/><figcaption>"@ + text::expanded(
        caption,
        text::substitution('\n', "<br>"@),
    ) + "</figcaption></figure>"@
}

/// Formats one Telegram rich-message figure block.
fn rich_image_figure_html(media_url: &str, caption: &str) -> (r: String)
    ensures
        r@ == figure(media_url@, caption@),
{
    "<figure><img src=\"".to_owned().concat(escape_attr(media_url).as_str()).concat(
        "\"/><figcaption>",
    ).concat(text::replace_char(caption, '\n', "<br>").as_str()).concat("</figcaption></figure>")
}

/// True of a rich message that Telegram takes.
pub open spec fn rich_fits(html: Seq<char>) -> bool {
    html.len() <= TELEGRAM_RICH_MESSAGE_LIMIT_CHARS
}

/// Returns true when rich message source should not be sent to Telegram.
pub fn rich_message_exceeds_limit(html: &str) -> (r: bool)
    ensures
        r == !rich_fits(html@),
{
    html.unicode_len() > TELEGRAM_RICH_MESSAGE_LIMIT_CHARS
}

/// The picture of a file in a rich message.
pub open spec fn file_figure(file: FileHit, p: models::PreferencesModel, url: Seq<char>) -> Seq<
    char,
> {
    let caption = if p.show_preview_metadata {
        caption_of(metadata_lines(file, p))
    } else {
        match link_to_file(file) {
            Some(l) => l,
            None => escaping::html_text(file.file_name@),
        }
    };
    if rich_fits(figure(url, caption)) {
        figure(url, caption)
    } else {
        figure(url, compact_caption(file, p))
    }
}

/// Builds the picture of a file in a rich message.
fn format_file_figure(file: &FileHit, preferences: &Preferences, url: &str) -> (r: String)
    ensures
        r@ == file_figure(*file, preferences@, url@),
{
    let caption = if preferences.show_preview_metadata {
        format_file_metadata(file, preferences)
    } else {
        match file_link(file) {
            Some(l) => l,
            None => escape_text(file.file_name.as_str()),
        }
    };
    let figure = rich_image_figure_html(url, caption.as_str());
    if rich_message_exceeds_limit(figure.as_str()) {
        rich_image_figure_html(url, compact_file_metadata_caption(file, preferences).as_str())
    } else {
        figure
    }
}

/// A rich message with one more picture.
pub open spec fn with_figure(html: Seq<char>, figure: Seq<char>) -> Seq<char> {
    if html.len() == 0 {
        figure
    } else {
        html + "\n"@ + figure
    }
}

/// A rich message with the pictures of the files from `i` on, up to the first that does not fit.
pub open spec fn rich_from(
    html: Seq<char>,
    files: Seq<FileHit>,
    p: models::PreferencesModel,
    i: int,
) -> Seq<char>
    decreases files.len() - i,
{
    if i < 0 || i >= files.len() {
        html
    } else {
        match preview_address(files[i]) {
            Some(url) => {
                let candidate = with_figure(html, file_figure(files[i], p, url));
                if rich_fits(candidate) {
                    rich_from(candidate, files, p, i + 1)
                } else {
                    html
                }
            },
            None => rich_from(html, files, p, i + 1),
        }
    }
}

/// Builds rich HTML with image blocks and metadata text below every image.
pub fn rich_image_preview_html(files: &Vec<FileHit>, preferences: &Preferences) -> (r: String)
    ensures
        r@ == rich_from(seq![], files@, preferences@, 0),
        rich_fits(r@),
{
    let mut html = String::new();
    assert(html@ =~= seq![]);
    let mut i: usize = 0;
    while i < files.len()
        invariant
            i <= files.len(),
            rich_fits(html@),
            rich_from(seq![], files@, preferences@, 0) == rich_from(
                html@,
                files@,
                preferences@,
                i as int,
            ),
        decreases files.len() - i,
    {
        if let Some(url) = telegram_preview_url(&files[i]) {
            let figure = format_file_figure(&files[i], preferences, url.as_str());
            let candidate = if html.as_str().unicode_len() == 0 {
                figure
            } else {
                html.clone().concat("\n").concat(figure.as_str())
            };
            if rich_message_exceeds_limit(candidate.as_str()) {
                return html;
            }
            html = candidate;
        }
        i += 1;
    }
    html
}

// Buttons.

/// Telegram inline keyboard button.
#[derive(Debug)]
pub struct InlineKeyboardButton {
    /// Button text.
    pub text: String,
    /// Callback data.
    pub callback_data: Option<String>,
    /// External URL.
    pub url: Option<String>,
    /// Telegram button style, where supported by clients.
    pub style: Option<String>,
}

/// The value of `InlineKeyboardButton`.
#[verifier::ext_equal]
pub struct ButtonView {
    pub text: Seq<char>,
    pub callback_data: Option<Seq<char>>,
    pub url: Option<Seq<char>>,
    pub style: Option<Seq<char>>,
}

impl View for InlineKeyboardButton {
    type V = ButtonView;

    open spec fn view(&self) -> ButtonView {
        ButtonView {
            text: self.text@,
            callback_data: text::opt_text(self.callback_data),
            url: text::opt_text(self.url),
            style: text::opt_text(self.style),
        }
    }
}

/// Telegram inline keyboard markup.
#[derive(Debug)]
pub struct InlineKeyboardMarkup {
    /// Button rows.
    pub inline_keyboard: Vec<Vec<InlineKeyboardButton>>,
}

/// The value of a row of buttons.
pub open spec fn row_view(row: Seq<InlineKeyboardButton>) -> Seq<ButtonView> {
    Seq::new(row.len(), |i: int| row[i]@)
}

/// The value of rows of buttons.
pub open spec fn rows_view(rows: Seq<Vec<InlineKeyboardButton>>) -> Seq<Seq<ButtonView>> {
    Seq::new(rows.len(), |i: int| row_view(rows[i]@))
}

/// A button that calls back.
pub open spec fn callback(label: Seq<char>, data: Seq<char>) -> ButtonView {
    ButtonView { text: label, callback_data: Some(data), url: None, style: None }
}

/// Makes a button that calls back.
pub fn callback_button(label: String, data: String) -> (r: InlineKeyboardButton)
    ensures
        r@ == callback(label@, data@),
{
    InlineKeyboardButton { text: label, callback_data: Some(data), url: None, style: None }
}

/// Adds a row of buttons.
pub fn push_row(rows: &mut Vec<Vec<InlineKeyboardButton>>, row: Vec<InlineKeyboardButton>)
    ensures
        rows_view(final(rows)@) == rows_view(old(rows)@).push(row_view(row@)),
{
    let ghost was = rows@;
    rows.push(row);
    assert(rows_view(rows@) =~= rows_view(was).push(row_view(row@)));
}

/// Makes a row of one button.
pub fn row_of(button: InlineKeyboardButton) -> (r: Vec<InlineKeyboardButton>)
    ensures
        row_view(r@) == seq![button@],
{
    let mut row: Vec<InlineKeyboardButton> = Vec::new();
    row.push(button);
    assert(row_view(row@) =~= seq![button@]);
    row
}

/// Makes a row of two buttons.
pub fn row_of_two(a: InlineKeyboardButton, b: InlineKeyboardButton) -> (r: Vec<
    InlineKeyboardButton,
>)
    ensures
        row_view(r@) == seq![a@, b@],
{
    let mut row: Vec<InlineKeyboardButton> = Vec::new();
    row.push(a);
    row.push(b);
    assert(row_view(row@) =~= seq![a@, b@]);
    row
}

/// The label of a file's button: its name, with its size where the user wants it, shortened.
pub open spec fn file_label(file: FileHit, p: models::PreferencesModel) -> Seq<char> {
    let label = if p.show_file_size {
        file.file_name@ + " ("@ + shown_bytes(file.size_bytes as nat) + ")"@
    } else {
        file.file_name@
    };
    text::shortened(label, 64)
}

/// Formats a file button label.
pub fn file_button_label(file: &FileHit, preferences: &Preferences) -> (r: String)
    ensures
        r@ == file_label(*file, preferences@),
{
    let label = if preferences.show_file_size {
        file.file_name.clone().concat(" (").concat(human_bytes(file.size_bytes).as_str()).concat(
            ")",
        )
    } else {
        file.file_name.clone()
    };
    text::shorten(label.as_str(), 64)
}

/// The style of a file's button.
pub open spec fn file_style(file: FileHit) -> Option<Seq<char>> {
    if file.size_bytes > TELEGRAM_REMOTE_URL_LIMIT_BYTES {
        Some("danger"@)
    } else if file.audio() {
        Some("primary"@)
    } else {
        None
    }
}

/// Returns Telegram button style for special file cases.
pub fn file_button_style(file: &FileHit) -> (r: Option<String>)
    ensures
        text::opt_text(r) == file_style(*file),
{
    if file.size_bytes > TELEGRAM_REMOTE_URL_LIMIT_BYTES {
        Some("danger".to_owned())
    } else if file.is_audio() {
        Some("primary".to_owned())
    } else {
        None
    }
}

/// The button of a file.
pub open spec fn file_button(file: FileHit, p: models::PreferencesModel) -> ButtonView {
    ButtonView {
        text: file_label(file, p),
        callback_data: Some("file:"@ + numbers::numeral(file.page_id as nat)),
        url: None,
        style: file_style(file),
    }
}

/// The label of a category's button.
pub open spec fn category_label(category: CategoryHit) -> Seq<char> {
    match category.file_count {
        Some(n) => category.display_title@ + " ("@ + numbers::numeral(n as nat) + ")"@,
        None => category.display_title@,
    }
}

/// Formats a category button label.
pub fn category_button_label(category: &CategoryHit) -> (r: String)
    ensures
        r@ == category_label(*category),
{
    match category.file_count {
        Some(n) => category.display_title.clone().concat(" (").concat(
            numbers::decimal(n).as_str(),
        ).concat(")"),
        None => category.display_title.clone(),
    }
}

/// The button of a category.
pub open spec fn category_button(category: CategoryHit) -> ButtonView {
    callback(category_label(category), "cat:"@ + numbers::numeral(category.page_id as nat))
}

/// The data of a button that goes to a page.
pub open spec fn page_data(kind: Seq<char>, token: Seq<char>, page: nat) -> Seq<char> {
    "pg:"@ + kind + ":"@ + token + ":"@ + numbers::numeral(page)
}

/// Writes the data of a button that goes to a page.
fn page_callback(kind: &str, token: &str, page: usize) -> (r: String)
    ensures
        r@ == page_data(kind@, token@, page as nat),
{
    "pg:".to_owned().concat(kind).concat(":").concat(token).concat(":").concat(
        numbers::decimal(page as u64).as_str(),
    )
}

/// The row that goes to the pages before and after.
pub open spec fn navigation(kind: Seq<char>, token: Seq<char>, page: nat, total: nat) -> Seq<
    ButtonView,
> {
    let prev = if page > 0 {
        seq![callback("Prev"@, page_data(kind, token, (page - 1) as nat))]
    } else {
        seq![]
    };
    let next = if page + 1 < total {
        seq![callback("Next"@, page_data(kind, token, page + 1))]
    } else {
        seq![]
    };
    prev + next
}

/// Builds the navigation row used by in-place pagination callbacks.
fn pagination_row(kind: &str, page_token: &str, page_index: usize, total_pages: usize) -> (r: Vec<
    InlineKeyboardButton,
>)
    ensures
        row_view(r@) == navigation(
            kind@,
            page_token@,
            page_index as nat,
            total_pages as nat,
        ),
{
    let mut row: Vec<InlineKeyboardButton> = Vec::new();
    if page_index > 0 {
        row.push(
            callback_button("Prev".to_owned(), page_callback(kind, page_token, page_index - 1)),
        );
    }
    if page_index < total_pages && total_pages - page_index > 1 {
        row.push(
            callback_button("Next".to_owned(), page_callback(kind, page_token, page_index + 1)),
        );
    }
    assert(row_view(row@) =~= navigation(
        kind@,
        page_token@,
        page_index as nat,
        total_pages as nat,
    ));
    row
}

/// The rows of a page, with navigation where there is a token and more than one page.
pub open spec fn paged_rows(
    rows: Seq<Seq<ButtonView>>,
    kind: Seq<char>,
    token: Option<Seq<char>>,
    page: nat,
    total: nat,
) -> Seq<Seq<ButtonView>> {
    if token is Some && total > 1 {
        rows.push(navigation(kind, token->0, page, total))
    } else {
        rows
    }
}

/// The number of buttons on a page of items.
pub open spec fn on_page(n: nat) -> nat {
    if n < BUTTON_PAGE_SIZE {
        n
    } else {
        BUTTON_PAGE_SIZE as nat
    }
}

/// The rows of files' buttons.
pub open spec fn file_rows(files: Seq<FileHit>, p: models::PreferencesModel) -> Seq<
    Seq<ButtonView>,
> {
    Seq::new(on_page(files.len()), |i: int| seq![file_button(files[i], p)])
}

/// Creates one page of file callback buttons and optional pagination controls.
pub fn file_buttons_page(
    files: &Vec<FileHit>,
    preferences: &Preferences,
    page_token: Option<&str>,
    page_index: usize,
    total_pages: usize,
) -> (r: Vec<Vec<InlineKeyboardButton>>)
    ensures
        rows_view(r@) == paged_rows(
            file_rows(files@, preferences@),
            "f"@,
            text::opt_slice(page_token),
            page_index as nat,
            total_pages as nat,
        ),
{
    let mut rows: Vec<Vec<InlineKeyboardButton>> = Vec::new();
    let n: usize = if files.len() < BUTTON_PAGE_SIZE {
        files.len()
    } else {
        BUTTON_PAGE_SIZE
    };
    let ghost all = file_rows(files@, preferences@);
    let mut i: usize = 0;
    assert(rows_view(rows@) =~= all.take(0));
    while i < n
        invariant
            i <= n,
            n == on_page(files@.len()),
            n <= files.len(),
            all == file_rows(files@, preferences@),
            rows_view(rows@) == all.take(i as int),
        decreases n - i,
    {
        let file = &files[i];
        let button = InlineKeyboardButton {
            text: file_button_label(file, preferences),
            callback_data: Some(
                "file:".to_owned().concat(numbers::decimal(file.page_id).as_str()),
            ),
            url: None,
            style: file_button_style(file),
        };
        push_row(&mut rows, row_of(button));
        assert(all.take(i + 1) =~= all.take(i as int).push(all[i as int]));
        i += 1;
    }
    assert(all.take(n as int) =~= all);
    if let Some(token) = page_token {
        if total_pages > 1 {
            push_row(&mut rows, pagination_row("f", token, page_index, total_pages));
        }
    }
    rows
}

/// Creates file callback buttons.
pub fn file_buttons(files: &Vec<FileHit>, preferences: &Preferences) -> (r: Vec<
    Vec<InlineKeyboardButton>,
>)
    ensures
        rows_view(r@) == file_rows(files@, preferences@),
{
    file_buttons_page(files, preferences, None, 0, 1)
}

/// The rows of categories' buttons.
pub open spec fn category_rows(categories: Seq<CategoryHit>) -> Seq<Seq<ButtonView>> {
    Seq::new(on_page(categories.len()), |i: int| seq![category_button(categories[i])])
}

/// Creates one page of category callback buttons and optional pagination controls.
pub fn category_buttons_page(
    categories: &Vec<CategoryHit>,
    page_token: Option<&str>,
    page_index: usize,
    total_pages: usize,
    page_kind: &str,
) -> (r: Vec<Vec<InlineKeyboardButton>>)
    ensures
        rows_view(r@) == paged_rows(
            category_rows(categories@),
            page_kind@,
            text::opt_slice(page_token),
            page_index as nat,
            total_pages as nat,
        ),
{
    let mut rows: Vec<Vec<InlineKeyboardButton>> = Vec::new();
    let n: usize = if categories.len() < BUTTON_PAGE_SIZE {
        categories.len()
    } else {
        BUTTON_PAGE_SIZE
    };
    let ghost all = category_rows(categories@);
    let mut i: usize = 0;
    assert(rows_view(rows@) =~= all.take(0));
    while i < n
        invariant
            i <= n,
            n == on_page(categories@.len()),
            n <= categories.len(),
            all == category_rows(categories@),
            rows_view(rows@) == all.take(i as int),
        decreases n - i,
    {
        let category = &categories[i];
        let button = callback_button(
            category_button_label(category),
            "cat:".to_owned().concat(numbers::decimal(category.page_id).as_str()),
        );
        push_row(&mut rows, row_of(button));
        assert(all.take(i + 1) =~= all.take(i as int).push(all[i as int]));
        i += 1;
    }
    assert(all.take(n as int) =~= all);
    if let Some(token) = page_token {
        if total_pages > 1 {
            push_row(&mut rows, pagination_row(page_kind, token, page_index, total_pages));
        }
    }
    rows
}

/// A heading with the number of the page, where there is more than one.
pub open spec fn heading(title: Seq<char>, page: nat, total: nat) -> Seq<char> {
    if total > 1 {
        title + " "@ + numbers::numeral(page + 1) + "/"@ + numbers::numeral(total)
    } else {
        title
    }
}

/// Formats a Telegram result heading with a one-based page marker.
pub fn paginated_title(title: &str, page_index: usize, total_pages: usize) -> (r: String)
    requires
        page_index < usize::MAX,
    ensures
        r@ == heading(title@, page_index as nat, total_pages as nat),
{
    if total_pages > 1 {
        title.to_owned().concat(" ").concat(
            numbers::decimal((page_index + 1) as u64).as_str(),
        ).concat("/").concat(numbers::decimal(total_pages as u64).as_str())
    } else {
        title.to_owned()
    }
}

// Messages.

/// A message with buttons below it.
#[derive(Debug)]
pub struct Reply {
    /// HTML text.
    pub text: String,
    /// Button rows, where there are any.
    pub rows: Option<Vec<Vec<InlineKeyboardButton>>>,
}

/// The value of `Reply`.
#[verifier::ext_equal]
pub struct ReplyView {
    pub text: Seq<char>,
    pub rows: Option<Seq<Seq<ButtonView>>>,
}

impl View for Reply {
    type V = ReplyView;

    open spec fn view(&self) -> ReplyView {
        ReplyView {
            text: self.text@,
            rows: match self.rows {
                Some(rows) => Some(rows_view(rows@)),
                None => None,
            },
        }
    }
}

/// A message without buttons.
pub open spec fn plain_reply(s: Seq<char>) -> ReplyView {
    ReplyView { text: s, rows: None }
}

/// Makes a message without buttons.
pub fn plain(s: String) -> (r: Reply)
    ensures
        r@ == plain_reply(s@),
{
    Reply { text: s, rows: None }
}

/// Returns true when a list is kept so that its pages can be asked for.
pub fn needs_page_token(total_items: usize, pagination_enabled: bool) -> (r: bool)
    ensures
        r == (pagination_enabled && total_items > BUTTON_PAGE_SIZE),
{
    pagination_enabled && total_items > BUTTON_PAGE_SIZE
}

/// The message with the first page of a list of files.
pub open spec fn file_list(
    files: Seq<FileHit>,
    p: models::PreferencesModel,
    token: Option<Seq<char>>,
) -> ReplyView {
    let total = pagination::pages(files.len());
    if files.len() == 0 {
        plain_reply("No files found."@)
    } else {
        ReplyView {
            text: heading("Files"@, 0, total),
            rows: Some(paged_rows(file_rows(files, p), "f"@, token, 0, total)),
        }
    }
}

/// Builds the message with the first page of a list of files; `page_token` is the list's token
/// where the list is kept.
pub fn file_list_reply(
    files: &Vec<FileHit>,
    preferences: &Preferences,
    page_token: Option<&str>,
) -> (r: Reply)
    ensures
        r@ == file_list(files@, preferences@, text::opt_slice(page_token)),
{
    if files.len() == 0 {
        return plain("No files found.".to_owned());
    }
    let total_pages: usize = pagination::page_count(files.len());
    let rows = file_buttons_page(files, preferences, page_token, 0, total_pages);
    Reply { text: paginated_title("Files", 0, total_pages), rows: Some(rows) }
}

/// The message with the first page of a list of categories.
pub open spec fn category_list(
    title: Seq<char>,
    categories: Seq<CategoryHit>,
    token: Option<Seq<char>>,
) -> ReplyView {
    let total = pagination::pages(categories.len());
    let kind = if title == "Subcategories"@ {
        "s"@
    } else {
        "c"@
    };
    ReplyView {
        text: heading(title, 0, total),
        rows: Some(paged_rows(category_rows(categories), kind, token, 0, total)),
    }
}

/// Builds the message with the first page of a list of categories under a heading.
pub fn category_list_reply(title: &str, categories: &Vec<CategoryHit>, page_token: Option<&str>) -> (
r: Reply)
    ensures
        r@ == category_list(title@, categories@, text::opt_slice(page_token)),
{
    let total_pages: usize = pagination::page_count(categories.len());
    let kind = if text::same(title, "Subcategories") {
        "s"
    } else {
        "c"
    };
    let rows = category_buttons_page(categories, page_token, 0, total_pages, kind);
    Reply { text: paginated_title(title, 0, total_pages), rows: Some(rows) }
}

/// Builds the message with the categories closest to a place.
pub fn closest_categories_reply(categories: &Vec<CategoryHit>, page_token: Option<&str>) -> (r:
    Reply)
    ensures
        r@ == (if categories@.len() == 0 {
            plain_reply("No categories found."@)
        } else {
            category_list("Closest categories"@, categories@, text::opt_slice(page_token))
        }),
{
    if categories.len() == 0 {
        return plain("No categories found.".to_owned());
    }
    category_list_reply("Closest categories", categories, page_token)
}

/// Builds the message of a category search.
pub fn categories_reply(categories: &Vec<CategoryHit>, page_token: Option<&str>) -> (r: Reply)
    ensures
        r@ == (if categories@.len() == 0 {
            plain_reply("No categories found."@)
        } else {
            category_list("Categories"@, categories@, text::opt_slice(page_token))
        }),
{
    if categories.len() == 0 {
        return plain("No categories found.".to_owned());
    }
    category_list_reply("Categories", categories, page_token)
}

/// Builds the message with the subcategories of a category that was opened.
pub fn subcategories_reply(categories: &Vec<CategoryHit>, page_token: Option<&str>) -> (r: Reply)
    ensures
        r@ == (if categories@.len() == 0 {
            plain_reply("No subcategories found."@)
        } else {
            category_list("Subcategories"@, categories@, text::opt_slice(page_token))
        }),
{
    if categories.len() == 0 {
        return plain("No subcategories found.".to_owned());
    }
    category_list_reply("Subcategories", categories, page_token)
}

/// The links to files.
pub open spec fn links(files: Seq<FileHit>) -> Seq<Seq<char>>
    decreases files.len(),
{
    if files.len() == 0 {
        seq![]
    } else {
        links(files.drop_last()) + line(link_to_file(files.last()))
    }
}

/// The message with links to the first ten files.
pub open spec fn plain_files(files: Seq<FileHit>) -> Seq<char> {
    if files.len() == 0 {
        "No files found."@
    } else {
        text::joined(
            links(
                if files.len() > 10 {
                    files.take(10)
                } else {
                    files
                },
            ),
            "\n"@,
        )
    }
}

/// Builds a compact list of plain file links.
pub fn plain_files_text(files: &Vec<FileHit>) -> (r: String)
    ensures
        r@ == plain_files(files@),
{
    if files.len() == 0 {
        return "No files found.".to_owned();
    }
    let n: usize = if files.len() > 10 {
        10
    } else {
        files.len()
    };
    let ghost shown = files@.take(n as int);
    let mut lines: Vec<String> = Vec::new();
    let mut i: usize = 0;
    assert(text::texts(lines@) =~= seq![]);
    assert(shown.take(0) =~= seq![]);
    while i < n
        invariant
            i <= n <= files.len(),
            shown == files@.take(n as int),
            text::texts(lines@) == links(shown.take(i as int)),
        decreases n - i,
    {
        proof {
            assert(shown.take(i + 1).drop_last() =~= shown.take(i as int));
            assert(shown.take(i + 1).last() == files@[i as int]);
        }
        push_line(&mut lines, file_link(&files[i]));
        i += 1;
    }
    assert(shown.take(n as int) =~= shown);
    assert(files@.len() <= 10 ==> shown =~= files@);
    text::join(&lines, "\n")
}

/// The message about a category.
pub open spec fn category_text(category: CategoryInfo) -> Seq<char> {
    text::joined(
        seq!["<b>"@ + escaping::html_text(category.title@) + "</b>"@] + line(
            match category.description {
                Some(d) => Some(escaping::html_text(d@)),
                None => None,
            },
        ) + line(
            match category.wikidata_item {
                Some(id) => Some(
                    "<a href=\""@ + escaping::html_attribute(
                        "https://www.wikidata.org/wiki/"@ + id@,
                    ) + "\">Wikidata</a>"@,
                ),
                None => None,
            },
        ) + line(text::opt_text(category.wikidata_claims_html)),
        "\n\n"@,
    )
}

/// Formats a category info message.
pub fn format_category_info(category: &CategoryInfo) -> (r: String)
    ensures
        r@ == category_text(*category),
{
    let mut lines: Vec<String> = Vec::new();
    assert(text::texts(lines@) =~= seq![]);
    let title = "<b>".to_owned().concat(escape_text(category.title.as_str()).as_str()).concat(
        "</b>",
    );
    push_line(&mut lines, Some(title));
    assert(text::texts(lines@) =~= seq![title@]);
    let description: Option<String> = match &category.description {
        Some(d) => Some(escape_text(d.as_str())),
        None => None,
    };
    push_line(&mut lines, description);
    let wikidata: Option<String> = match category.wikidata_url() {
        Some(url) => Some(
            "<a href=\"".to_owned().concat(escape_attr(url.as_str()).as_str()).concat(
                "\">Wikidata</a>",
            ),
        ),
        None => None,
    };
    push_line(&mut lines, wikidata);
    push_line(&mut lines, text::clone_opt(&category.wikidata_claims_html));
    text::join(&lines, "\n\n")
}

/// How search results are delivered.
#[derive(Clone, Copy, Debug, PartialEq, Eq, Structural)]
pub enum Delivery {
    /// Links in one message.
    Links,
    /// Image previews, up to a number.
    Previews(usize),
    /// Buttons.
    Buttons,
}

/// How search results are delivered, given what the search asks for.
pub open spec fn delivery_of(
    p: models::PreferencesModel,
    links_flag: bool,
    image_previews_flag: bool,
) -> Delivery {
    if links_flag || p.delivery_mode == DeliveryMode::Links10 {
        Delivery::Links
    } else if image_previews_flag || p.delivery_mode == DeliveryMode::Images10 {
        Delivery::Previews(10)
    } else if p.delivery_mode == DeliveryMode::Images20 {
        Delivery::Previews(20)
    } else {
        Delivery::Buttons
    }
}

/// Chooses delivery mode for Telegram search results.
pub fn choose_delivery(preferences: &Preferences, links_flag: bool, image_previews_flag: bool) -> (r:
    Delivery)
    ensures
        r == delivery_of(preferences@, links_flag, image_previews_flag),
{
    if links_flag || preferences.delivery_mode == DeliveryMode::Links10 {
        Delivery::Links
    } else if image_previews_flag || preferences.delivery_mode == DeliveryMode::Images10 {
        Delivery::Previews(10)
    } else if preferences.delivery_mode == DeliveryMode::Images20 {
        Delivery::Previews(20)
    } else {
        Delivery::Buttons
    }
}

/// How an original file is sent.
#[derive(Clone, Copy, Debug, PartialEq, Eq, Structural)]
pub enum OriginalDelivery {
    /// Telegram fetches it from its address.
    ByAddress,
    /// It is uploaded.
    Upload,
}

/// How an original file is sent, given its size.
pub open spec fn original_delivery_of(file: FileHit) -> OriginalDelivery {
    if file.size_bytes <= TELEGRAM_REMOTE_URL_LIMIT_BYTES {
        OriginalDelivery::ByAddress
    } else {
        OriginalDelivery::Upload
    }
}

/// Chooses how an original file is sent.
pub fn choose_original_delivery(file: &FileHit) -> (r: OriginalDelivery)
    ensures
        r == original_delivery_of(*file),
{
    if file.size_bytes <= TELEGRAM_REMOTE_URL_LIMIT_BYTES {
        OriginalDelivery::ByAddress
    } else {
        OriginalDelivery::Upload
    }
}

// Inline results.

/// A result of an inline query.
#[derive(Debug)]
pub enum InlineResult {
    /// A picture.
    Photo(InlinePhoto),
    /// A link.
    Article(InlineArticle),
}

/// A picture as a result of an inline query.
#[derive(Debug)]
pub struct InlinePhoto {
    /// Result id.
    pub id: String,
    /// Address of the picture.
    pub photo_url: String,
    /// Address of the thumbnail.
    pub thumbnail_url: String,
    /// Title.
    pub title: String,
    /// Description.
    pub description: String,
    /// HTML caption.
    pub caption: String,
}

/// A link as a result of an inline query.
#[derive(Debug)]
pub struct InlineArticle {
    /// Result id.
    pub id: String,
    /// Title.
    pub title: String,
    /// Description.
    pub description: String,
    /// HTML text of the message.
    pub message_text: String,
}

/// The value of `InlineResult`.
pub enum InlineView {
    Photo {
        id: Seq<char>,
        photo_url: Seq<char>,
        thumbnail_url: Seq<char>,
        title: Seq<char>,
        description: Seq<char>,
        caption: Seq<char>,
    },
    Article { id: Seq<char>, title: Seq<char>, description: Seq<char>, message_text: Seq<char> },
}

impl View for InlineResult {
    type V = InlineView;

    open spec fn view(&self) -> InlineView {
        match self {
            InlineResult::Photo(p) => InlineView::Photo {
                id: p.id@,
                photo_url: p.photo_url@,
                thumbnail_url: p.thumbnail_url@,
                title: p.title@,
                description: p.description@,
                caption: p.caption@,
            },
            InlineResult::Article(a) => InlineView::Article {
                id: a.id@,
                title: a.title@,
                description: a.description@,
                message_text: a.message_text@,
            },
        }
    }
}

/// Shortens inline descriptions to a practical single-line preview.
pub fn short_inline_text(value: &str) -> (r: String)
    ensures
        r@ == text::shortened(squeezed(value@), 120),
        r@.len() <= 120,
{
    truncate_visible_text(value, 120)
}

/// The description of an inline result: the caption, or the description, or the type or size.
pub open spec fn inline_text(file: FileHit) -> Seq<char> {
    if file.caption_text is Some && text::trimmed((file.caption_text->0)@).len() > 0 {
        text::shortened(squeezed((file.caption_text->0)@), 120)
    } else if file.description_text is Some && text::trimmed((file.description_text->0)@).len()
        > 0 {
        text::shortened(squeezed((file.description_text->0)@), 120)
    } else if file.mime is Some {
        (file.mime->0)@
    } else {
        shown_bytes(file.size_bytes as nat)
    }
}

/// Returns concise inline result description text.
pub fn inline_description(file: &FileHit) -> (r: String)
    ensures
        r@ == inline_text(*file),
{
    if let Some(caption) = &file.caption_text {
        if !text::blank(caption.as_str()) {
            return short_inline_text(caption.as_str());
        }
    }
    if let Some(description) = &file.description_text {
        if !text::blank(description.as_str()) {
            return short_inline_text(description.as_str());
        }
    }
    match &file.mime {
        Some(mime) => mime.clone(),
        None => human_bytes(file.size_bytes),
    }
}

/// The inline result of a file: a picture for images with a preview, a link for other files; no
/// result for a file without a page.
pub open spec fn inline_view(file: FileHit) -> Option<InlineView> {
    let id = numbers::numeral(file.page_id as nat);
    match link_to_file(file) {
        Some(l) => if is_image(file) {
            match preview_address(file) {
                Some(url) => Some(
                    InlineView::Photo {
                        id,
                        photo_url: url,
                        thumbnail_url: match file.thumb_url {
                            Some(t) => t@,
                            None => url,
                        },
                        title: file.file_name@,
                        description: inline_text(file),
                        caption: l,
                    },
                ),
                None => None,
            }
        } else {
            Some(
                InlineView::Article {
                    id,
                    title: file.file_name@,
                    description: inline_text(file),
                    message_text: l,
                },
            )
        },
        None => None,
    }
}

/// The value of an optional inline result.
pub open spec fn opt_inline(r: Option<InlineResult>) -> Option<InlineView> {
    match r {
        Some(x) => Some(x@),
        None => None,
    }
}

/// Builds an inline query result for a Commons file.
pub fn inline_result(file: &FileHit) -> (r: Option<InlineResult>)
    ensures
        opt_inline(r) == inline_view(*file),
{
    let linked = match file_link(file) {
        Some(l) => l,
        None => return None,
    };
    let id = numbers::decimal(file.page_id);
    let description = inline_description(file);
    if has_image_mime(file) {
        let photo_url = match telegram_preview_url(file) {
            Some(url) => url,
            None => return None,
        };
        let thumbnail_url = match &file.thumb_url {
            Some(t) => t.clone(),
            None => photo_url.clone(),
        };
        return Some(
            InlineResult::Photo(
                InlinePhoto {
                    id,
                    photo_url,
                    thumbnail_url,
                    title: file.file_name.clone(),
                    description,
                    caption: linked,
                },
            ),
        );
    }
    Some(
        InlineResult::Article(
            InlineArticle { id, title: file.file_name.clone(), description, message_text: linked },
        ),
    )
}

/// The inline results of files.
pub open spec fn inline_views(files: Seq<FileHit>) -> Seq<InlineView>
    decreases files.len(),
{
    if files.len() == 0 {
        seq![]
    } else {
        match inline_view(files.last()) {
            Some(x) => inline_views(files.drop_last()).push(x),
            None => inline_views(files.drop_last()),
        }
    }
}

/// The values of inline results.
pub open spec fn result_views(v: Seq<InlineResult>) -> Seq<InlineView> {
    Seq::new(v.len(), |i: int| v[i]@)
}

/// Builds the results of an inline answer.
pub fn inline_results(files: &Vec<FileHit>) -> (r: Vec<InlineResult>)
    ensures
        result_views(r@) == inline_views(
            if files@.len() > MAX_INLINE_RESULTS {
                files@.take(MAX_INLINE_RESULTS as int)
            } else {
                files@
            },
        ),
        r@.len() <= MAX_INLINE_RESULTS,
{
    let n: usize = if files.len() > MAX_INLINE_RESULTS {
        MAX_INLINE_RESULTS
    } else {
        files.len()
    };
    let ghost shown = files@.take(n as int);
    let mut out: Vec<InlineResult> = Vec::new();
    let mut i: usize = 0;
    assert(result_views(out@) =~= seq![]);
    assert(shown.take(0) =~= seq![]);
    while i < n
        invariant
            i <= n <= files.len(),
            n <= MAX_INLINE_RESULTS,
            out@.len() <= i,
            shown == files@.take(n as int),
            result_views(out@) == inline_views(shown.take(i as int)),
        decreases n - i,
    {
        proof {
            assert(shown.take(i + 1).drop_last() =~= shown.take(i as int));
            assert(shown.take(i + 1).last() == files@[i as int]);
        }
        if let Some(x) = inline_result(&files[i]) {
            let ghost was = out@;
            out.push(x);
            assert(result_views(out@) =~= result_views(was).push(x@));
        }
        i += 1;
    }
    assert(shown.take(n as int) =~= shown);
    assert(files@.len() <= MAX_INLINE_RESULTS ==> shown =~= files@);
    out
}

/// Returns the seconds for which an inline answer may be kept.
pub fn inline_cache_seconds(result_count: usize) -> (r: u32)
    ensures
        r == (if result_count == 0 {
            1u32
        } else {
            60u32
        }),
{
    if result_count == 0 {
        1
    } else {
        60
    }
}

/// Builds the Telegram method URL.
pub fn method_url(token: &str, method: &str) -> (r: String)
    ensures
        r@ == "https://api.telegram.org/bot"@ + token@ + "/"@ + method@,
{
    "https://api.telegram.org/bot".to_owned().concat(token).concat("/").concat(method)
}

} // verus!
