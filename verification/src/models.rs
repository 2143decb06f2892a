//! The bot's data: preferences, queries, files and categories.

use vstd::prelude::*;
use vstd::string::*;
use crate::escaping;
use crate::numbers;
use crate::text;

verus! {

/// Telegram's maximum bot upload size requested for this project, in bytes.
pub const DEFAULT_MAX_FILE_BYTES: u64 = 50 * 1024 * 1024;

/// Files above this size should be uploaded multipart instead of sent by URL.
pub const TELEGRAM_REMOTE_URL_LIMIT_BYTES: u64 = 20 * 1024 * 1024;

/// Number of inline results asked for where the user chose none.
pub const DEFAULT_INLINE_RESULT_COUNT: usize = 50;

/// Numbers of inline results that a user can choose.
pub const INLINE_RESULT_COUNT_OPTIONS: [usize; 3] = [10, 20, 50];

/// Image extensions currently accepted by Wikimedia Commons.
pub const COMMONS_IMAGE_EXTENSIONS: [&'static str; 9] = [
    "gif",
    "jpeg",
    "jpg",
    "png",
    "svg",
    "tif",
    "tiff",
    "webp",
    "xcf",
];

/// Audio extensions currently accepted by Wikimedia Commons.
pub const COMMONS_AUDIO_EXTENSIONS: [&'static str; 8] = [
    "flac",
    "mid",
    "midi",
    "mp3",
    "oga",
    "ogg",
    "opus",
    "wav",
];

/// Video extensions currently accepted by Wikimedia Commons.
pub const COMMONS_VIDEO_EXTENSIONS: [&'static str; 4] = ["mpeg", "mpg", "ogv", "webm"];

/// Document extensions currently accepted by Wikimedia Commons.
pub const COMMONS_DOCUMENT_EXTENSIONS: [&'static str; 2] = ["djvu", "pdf"];

/// 3D/model extensions currently accepted by Wikimedia Commons.
pub const COMMONS_MODEL_EXTENSIONS: [&'static str; 1] = ["stl"];

/// All file extensions currently accepted by Wikimedia Commons.
pub const COMMONS_SUPPORTED_EXTENSIONS: [&'static str; 24] = [
    "djvu",
    "flac",
    "gif",
    "jpeg",
    "jpg",
    "mid",
    "midi",
    "mp3",
    "mpeg",
    "mpg",
    "oga",
    "ogg",
    "ogv",
    "opus",
    "pdf",
    "png",
    "stl",
    "svg",
    "tif",
    "tiff",
    "wav",
    "webm",
    "webp",
    "xcf",
];

/// A user's word without surrounding space and in lower case.
pub open spec fn word(s: Seq<char>) -> Seq<char> {
    text::lowered(text::trimmed(s))
}

/// Trims a user's word and lower-cases its ASCII letters.
fn to_word(s: &str) -> (r: String)
    ensures
        r@ == word(s@),
{
    text::ascii_lowercase(text::trim(s).as_str())
}

/// A high-level file-family filter.
#[derive(Clone, Copy, Debug, Default, PartialEq, Eq, Structural)]
pub enum FileType {
    /// Return any supported Commons media type.
    #[default]
    All,
    /// Return image-like files.
    Images,
    /// Return audio files.
    Audio,
    /// Return video files.
    Video,
}

impl FileType {
    /// The file family that a word names.
    pub open spec fn of_word(w: Seq<char>) -> Option<FileType> {
        if w == "all"@ {
            Some(FileType::All)
        } else if w == "image"@ || w == "images"@ {
            Some(FileType::Images)
        } else if w == "audio"@ || w == "sound"@ || w == "music"@ {
            Some(FileType::Audio)
        } else if w == "video"@ || w == "videos"@ {
            Some(FileType::Video)
        } else {
            None
        }
    }

    /// The word under which a file family is stored.
    pub open spec fn pref_word(self) -> Seq<char> {
        match self {
            FileType::All => "all"@,
            FileType::Images => "images"@,
            FileType::Audio => "audio"@,
            FileType::Video => "video"@,
        }
    }

    /// The search predicate of a file family.
    pub open spec fn predicate(self) -> Option<Seq<char>> {
        match self {
            FileType::All => None,
            FileType::Images => Some("bitmap"@),
            FileType::Audio => Some("audio"@),
            FileType::Video => Some("video"@),
        }
    }

    /// Parses a user-facing preference or CLI value.
    pub fn parse(value: &str) -> (r: Option<Self>)
        ensures
            r == FileType::of_word(word(value@)),
    {
        let w = to_word(value);
        let w = w.as_str();
        if text::same(w, "all") {
            Some(FileType::All)
        } else if text::same(w, "image") || text::same(w, "images") {
            Some(FileType::Images)
        } else if text::same(w, "audio") || text::same(w, "sound") || text::same(w, "music") {
            Some(FileType::Audio)
        } else if text::same(w, "video") || text::same(w, "videos") {
            Some(FileType::Video)
        } else {
            None
        }
    }

    /// Returns the CirrusSearch file type predicate, if one is needed.
    pub fn cirrus_filetype(&self) -> (r: Option<&'static str>)
        ensures
            text::opt_slice(r) == self.predicate(),
    {
        match self {
            FileType::All => None,
            FileType::Images => Some("bitmap"),
            FileType::Audio => Some("audio"),
            FileType::Video => Some("video"),
        }
    }

    /// Returns the stable value stored in preferences.
    pub fn as_pref_value(&self) -> (r: &'static str)
        ensures
            r@ == self.pref_word(),
    {
        match self {
            FileType::All => "all",
            FileType::Images => "images",
            FileType::Audio => "audio",
            FileType::Video => "video",
        }
    }
}

/// How Telegram search results should be delivered.
#[derive(Clone, Copy, Debug, Default, PartialEq, Eq, Structural)]
pub enum DeliveryMode {
    /// File buttons with metadata on click.
    #[default]
    Buttons,
    /// Ten compact Commons links in one message.
    Links10,
    /// Ten image previews in one media group.
    Images10,
    /// Twenty image previews in two media groups.
    Images20,
}

impl DeliveryMode {
    /// The delivery mode that a word names.
    pub open spec fn of_word(w: Seq<char>) -> Option<DeliveryMode> {
        if w == "buttons"@ {
            Some(DeliveryMode::Buttons)
        } else if w == "links"@ || w == "links10"@ {
            Some(DeliveryMode::Links10)
        } else if w == "img"@ || w == "img10"@ || w == "images10"@ {
            Some(DeliveryMode::Images10)
        } else if w == "images20"@ {
            Some(DeliveryMode::Images20)
        } else {
            None
        }
    }

    /// The word under which a delivery mode is stored.
    pub open spec fn pref_word(self) -> Seq<char> {
        match self {
            DeliveryMode::Buttons => "buttons"@,
            DeliveryMode::Links10 => "links10"@,
            DeliveryMode::Images10 => "images10"@,
            DeliveryMode::Images20 => "images20"@,
        }
    }

    /// Parses a stable preference value.
    pub fn parse(value: &str) -> (r: Option<Self>)
        ensures
            r == DeliveryMode::of_word(word(value@)),
    {
        let w = to_word(value);
        let w = w.as_str();
        if text::same(w, "buttons") {
            Some(DeliveryMode::Buttons)
        } else if text::same(w, "links") || text::same(w, "links10") {
            Some(DeliveryMode::Links10)
        } else if text::same(w, "img") || text::same(w, "img10") || text::same(w, "images10") {
            Some(DeliveryMode::Images10)
        } else if text::same(w, "images20") {
            Some(DeliveryMode::Images20)
        } else {
            None
        }
    }

    /// Returns the stable value stored in preferences.
    pub fn as_pref_value(&self) -> (r: &'static str)
        ensures
            r@ == self.pref_word(),
    {
        match self {
            DeliveryMode::Buttons => "buttons",
            DeliveryMode::Links10 => "links10",
            DeliveryMode::Images10 => "images10",
            DeliveryMode::Images20 => "images20",
        }
    }
}

/// PDF/DjVu delivery behavior.
#[derive(Clone, Copy, Debug, Default, PartialEq, Eq, Structural)]
pub enum DocumentPageMode {
    /// Send the original document.
    #[default]
    Original,
    /// Send rendered page previews from Wikimedia.
    RenderedPages,
}

impl DocumentPageMode {
    /// The page mode that a word names.
    pub open spec fn of_word(w: Seq<char>) -> Option<DocumentPageMode> {
        if w == "original"@ {
            Some(DocumentPageMode::Original)
        } else if w == "rendered"@ || w == "pages"@ {
            Some(DocumentPageMode::RenderedPages)
        } else {
            None
        }
    }

    /// The word under which a page mode is stored.
    pub open spec fn pref_word(self) -> Seq<char> {
        match self {
            DocumentPageMode::Original => "original"@,
            DocumentPageMode::RenderedPages => "rendered"@,
        }
    }

    /// Parses a stable preference value.
    pub fn parse(value: &str) -> (r: Option<Self>)
        ensures
            r == DocumentPageMode::of_word(word(value@)),
    {
        let w = to_word(value);
        let w = w.as_str();
        if text::same(w, "original") {
            Some(DocumentPageMode::Original)
        } else if text::same(w, "rendered") || text::same(w, "pages") {
            Some(DocumentPageMode::RenderedPages)
        } else {
            None
        }
    }

    /// Returns the stable value stored in preferences.
    pub fn as_pref_value(&self) -> (r: &'static str)
        ensures
            r@ == self.pref_word(),
    {
        match self {
            DocumentPageMode::Original => "original",
            DocumentPageMode::RenderedPages => "rendered",
        }
    }
}

/// Telegram user preferences persisted in DynamoDB when enabled.
#[derive(Debug, PartialEq, Eq)]
pub struct Preferences {
    /// Whether category buttons should hold direct file counts.
    pub show_category_counts: bool,
    /// Preferred result delivery mode.
    pub delivery_mode: DeliveryMode,
    /// Preferred file-family filter.
    pub file_type: FileType,
    /// Optional file extension filter without a leading dot.
    pub extension: Option<String>,
    /// Favorite categories shown by `/help`.
    pub favorite_categories: Vec<String>,
    /// Categories hidden from search results.
    pub blacklist_categories: Vec<String>,
    /// Uploaders hidden from search results.
    pub blacklist_uploaders: Vec<String>,
    /// Whether metadata responses hold SHA-1.
    pub show_sha1: bool,
    /// Whether button labels hold file size.
    pub show_file_size: bool,
    /// Whether `-img` preview captions hold file metadata.
    pub show_preview_metadata: bool,
    /// PDF delivery mode.
    pub pdf_mode: DocumentPageMode,
    /// DjVu delivery mode.
    pub djvu_mode: DocumentPageMode,
    /// Whether result lists are split into pages with navigation buttons.
    pub pagination_enabled: bool,
    /// Whether image previews are sent as one rich message.
    pub rich_image_previews: bool,
    /// Whether the files of an opened category are shown as buttons.
    pub category_file_buttons: bool,
    /// Number of results in an inline answer.
    pub inline_result_count: usize,
}

/// The value of `Preferences`.
pub struct PreferencesModel {
    pub show_category_counts: bool,
    pub delivery_mode: DeliveryMode,
    pub file_type: FileType,
    pub extension: Option<Seq<char>>,
    pub favorite_categories: Seq<Seq<char>>,
    pub blacklist_categories: Seq<Seq<char>>,
    pub blacklist_uploaders: Seq<Seq<char>>,
    pub show_sha1: bool,
    pub show_file_size: bool,
    pub show_preview_metadata: bool,
    pub pdf_mode: DocumentPageMode,
    pub djvu_mode: DocumentPageMode,
    pub pagination_enabled: bool,
    pub rich_image_previews: bool,
    pub category_file_buttons: bool,
    pub inline_result_count: usize,
}

impl View for Preferences {
    type V = PreferencesModel;

    open spec fn view(&self) -> PreferencesModel {
        PreferencesModel {
            show_category_counts: self.show_category_counts,
            delivery_mode: self.delivery_mode,
            file_type: self.file_type,
            extension: text::opt_text(self.extension),
            favorite_categories: text::texts(self.favorite_categories@),
            blacklist_categories: text::texts(self.blacklist_categories@),
            blacklist_uploaders: text::texts(self.blacklist_uploaders@),
            show_sha1: self.show_sha1,
            show_file_size: self.show_file_size,
            show_preview_metadata: self.show_preview_metadata,
            pdf_mode: self.pdf_mode,
            djvu_mode: self.djvu_mode,
            pagination_enabled: self.pagination_enabled,
            rich_image_previews: self.rich_image_previews,
            category_file_buttons: self.category_file_buttons,
            inline_result_count: self.inline_result_count,
        }
    }
}

impl PreferencesModel {
    /// The preferences of a user who chose nothing.
    pub open spec fn initial() -> PreferencesModel {
        PreferencesModel {
            show_category_counts: false,
            delivery_mode: DeliveryMode::Buttons,
            file_type: FileType::All,
            extension: None,
            favorite_categories: seq![],
            blacklist_categories: seq![],
            blacklist_uploaders: seq![],
            show_sha1: false,
            show_file_size: false,
            show_preview_metadata: true,
            pdf_mode: DocumentPageMode::Original,
            djvu_mode: DocumentPageMode::Original,
            pagination_enabled: true,
            rich_image_previews: false,
            category_file_buttons: false,
            inline_result_count: DEFAULT_INLINE_RESULT_COUNT,
        }
    }
}

impl Default for Preferences {
    fn default() -> (r: Self)
        ensures
            r@ == PreferencesModel::initial(),
    {
        let r = Preferences {
            show_category_counts: false,
            delivery_mode: DeliveryMode::Buttons,
            file_type: FileType::All,
            extension: None,
            favorite_categories: Vec::new(),
            blacklist_categories: Vec::new(),
            blacklist_uploaders: Vec::new(),
            show_sha1: false,
            show_file_size: false,
            show_preview_metadata: true,
            pdf_mode: DocumentPageMode::Original,
            djvu_mode: DocumentPageMode::Original,
            pagination_enabled: true,
            rich_image_previews: false,
            category_file_buttons: false,
            inline_result_count: DEFAULT_INLINE_RESULT_COUNT,
        };
        assert(text::texts(r.favorite_categories@) =~= seq![]);
        r
    }
}

impl Clone for Preferences {
    fn clone(&self) -> (r: Self)
        ensures
            r@ == self@,
    {
        let r = Preferences {
            show_category_counts: self.show_category_counts,
            delivery_mode: self.delivery_mode,
            file_type: self.file_type,
            extension: text::clone_opt(&self.extension),
            favorite_categories: text::clone_texts(&self.favorite_categories),
            blacklist_categories: text::clone_texts(&self.blacklist_categories),
            blacklist_uploaders: text::clone_texts(&self.blacklist_uploaders),
            show_sha1: self.show_sha1,
            show_file_size: self.show_file_size,
            show_preview_metadata: self.show_preview_metadata,
            pdf_mode: self.pdf_mode,
            djvu_mode: self.djvu_mode,
            pagination_enabled: self.pagination_enabled,
            rich_image_previews: self.rich_image_previews,
            category_file_buttons: self.category_file_buttons,
            inline_result_count: self.inline_result_count,
        };
        r
    }
}

/// The number of inline results that a stored number stands for.
pub open spec fn inline_count(n: usize) -> usize {
    if INLINE_RESULT_COUNT_OPTIONS@.contains(n) {
        n
    } else {
        DEFAULT_INLINE_RESULT_COUNT
    }
}

/// Returns a number of inline results that a user can choose.
pub fn normalize_inline_result_count(count: usize) -> (r: usize)
    ensures
        r == inline_count(count),
{
    let options = INLINE_RESULT_COUNT_OPTIONS;
    let mut i: usize = 0;
    while i < options.len()
        invariant
            i <= options.len(),
            options@ == INLINE_RESULT_COUNT_OPTIONS@,
            forall|k: int| 0 <= k < i ==> options@[k] != count,
        decreases options.len() - i,
    {
        if options[i] == count {
            return count;
        }
        i += 1;
    }
    DEFAULT_INLINE_RESULT_COUNT
}

impl Preferences {
    /// Returns the number of inline results to ask for.
    pub fn normalized_inline_result_count(&self) -> (r: usize)
        ensures
            r == inline_count(self.inline_result_count),
    {
        normalize_inline_result_count(self.inline_result_count)
    }
}

/// A parsed top-level user intent.
#[derive(Debug, PartialEq, Eq)]
pub enum Intent {
    /// Show help text.
    Help,
    /// Show or edit preferences.
    Preferences,
    /// Show operational statistics.
    Stats,
    /// Search for files.
    FileSearch(SearchQuery),
    /// Search for category pages.
    CategorySearch(String),
    /// Empty or unsupported input.
    Empty,
}

/// The value of `Intent`.
pub enum IntentView {
    Help,
    Preferences,
    Stats,
    FileSearch(QueryView),
    CategorySearch(Seq<char>),
    Empty,
}

impl View for Intent {
    type V = IntentView;

    open spec fn view(&self) -> IntentView {
        match self {
            Intent::Help => IntentView::Help,
            Intent::Preferences => IntentView::Preferences,
            Intent::Stats => IntentView::Stats,
            Intent::FileSearch(q) => IntentView::FileSearch(q@),
            Intent::CategorySearch(s) => IntentView::CategorySearch(s@),
            Intent::Empty => IntentView::Empty,
        }
    }
}

/// A parsed Commons file search.
#[derive(Debug, PartialEq, Eq)]
pub struct SearchQuery {
    /// Original user input.
    pub raw: String,
    /// Remaining free-text terms.
    pub terms: Vec<String>,
    /// File-family override from syntax.
    pub file_type: Option<FileType>,
    /// Optional file extension without dot.
    pub extension: Option<String>,
    /// Optional category name without `Category:`.
    pub category: Option<String>,
    /// Optional uploader username.
    pub user: Option<String>,
    /// Optional date filter.
    pub date: Option<DateFilter>,
    /// File-size predicates.
    pub size_filters: Vec<SizeFilter>,
    /// Compact `-links` delivery.
    pub links_flag: bool,
    /// Telegram image-preview delivery.
    pub image_previews_flag: bool,
    /// Sort final results by size.
    pub sort_by_size: bool,
    /// CLI-only bypass for Telegram's 50 MB filter.
    pub bypass_telegram_limit: bool,
}

/// The value of `SearchQuery`.
#[verifier::ext_equal]
pub struct QueryView {
    pub raw: Seq<char>,
    pub terms: Seq<Seq<char>>,
    pub file_type: Option<FileType>,
    pub extension: Option<Seq<char>>,
    pub category: Option<Seq<char>>,
    pub user: Option<Seq<char>>,
    pub date: Option<DateView>,
    pub size_filters: Seq<SizeFilter>,
    pub links_flag: bool,
    pub image_previews_flag: bool,
    pub sort_by_size: bool,
    pub bypass_telegram_limit: bool,
}

impl View for SearchQuery {
    type V = QueryView;

    open spec fn view(&self) -> QueryView {
        QueryView {
            raw: self.raw@,
            terms: text::texts(self.terms@),
            file_type: self.file_type,
            extension: text::opt_text(self.extension),
            category: text::opt_text(self.category),
            user: text::opt_text(self.user),
            date: opt_date(self.date),
            size_filters: self.size_filters@,
            links_flag: self.links_flag,
            image_previews_flag: self.image_previews_flag,
            sort_by_size: self.sort_by_size,
            bypass_telegram_limit: self.bypass_telegram_limit,
        }
    }
}

impl QueryView {
    /// A query that asks for nothing.
    pub open spec fn empty(raw: Seq<char>) -> QueryView {
        QueryView {
            raw,
            terms: seq![],
            file_type: None,
            extension: None,
            category: None,
            user: None,
            date: None,
            size_filters: seq![],
            links_flag: false,
            image_previews_flag: false,
            sort_by_size: false,
            bypass_telegram_limit: false,
        }
    }

    /// The free-text terms joined by spaces.
    pub open spec fn term_text(self) -> Seq<char> {
        text::trimmed(text::joined(self.terms, " "@))
    }
}

impl Default for SearchQuery {
    fn default() -> (r: Self)
        ensures
            r@ == QueryView::empty(seq![]),
    {
        let r = SearchQuery {
            raw: String::new(),
            terms: Vec::new(),
            file_type: None,
            extension: None,
            category: None,
            user: None,
            date: None,
            size_filters: Vec::new(),
            links_flag: false,
            image_previews_flag: false,
            sort_by_size: false,
            bypass_telegram_limit: false,
        };
        assert(r@ =~= QueryView::empty(seq![]));
        r
    }
}

impl SearchQuery {
    /// Returns the free-text terms joined for Commons search.
    pub fn term_text(&self) -> (r: String)
        ensures
            r@ == self@.term_text(),
    {
        text::trim(text::join(&self.terms, " ").as_str())
    }
}

/// A supported upload-date filter.
#[derive(Debug, PartialEq, Eq)]
pub enum DateFilter {
    /// Specific UTC year.
    Year(i32),
    /// Specific UTC date in `YYYY-MM-DD`.
    Day(String),
    /// Previous N days.
    RelativeDays(u32),
    /// Previous month.
    PreviousMonth,
    /// Previous year.
    PreviousYear,
}

/// The value of `DateFilter`.
pub enum DateView {
    Year(i32),
    Day(Seq<char>),
    RelativeDays(u32),
    PreviousMonth,
    PreviousYear,
}

impl View for DateFilter {
    type V = DateView;

    open spec fn view(&self) -> DateView {
        match self {
            DateFilter::Year(y) => DateView::Year(*y),
            DateFilter::Day(d) => DateView::Day(d@),
            DateFilter::RelativeDays(n) => DateView::RelativeDays(*n),
            DateFilter::PreviousMonth => DateView::PreviousMonth,
            DateFilter::PreviousYear => DateView::PreviousYear,
        }
    }
}

/// The value of an optional date filter.
pub open spec fn opt_date(d: Option<DateFilter>) -> Option<DateView> {
    match d {
        Some(f) => Some(f@),
        None => None,
    }
}

impl DateView {
    /// A date filter as a user writes it.
    pub open spec fn written(self) -> Seq<char> {
        match self {
            DateView::Year(y) => numbers::signed_numeral(y as int),
            DateView::Day(d) => d,
            DateView::RelativeDays(n) => numbers::numeral(n as nat) + "days"@,
            DateView::PreviousMonth => "month"@,
            DateView::PreviousYear => "year"@,
        }
    }
}

impl DateFilter {
    /// Writes the filter as a user writes it.
    pub fn to_text(&self) -> (r: String)
        ensures
            r@ == self@.written(),
    {
        match self {
            DateFilter::Year(y) => numbers::signed_decimal(*y as i64),
            DateFilter::Day(d) => d.clone(),
            DateFilter::RelativeDays(n) => numbers::decimal(*n as u64).concat("days"),
            DateFilter::PreviousMonth => "month".to_owned(),
            DateFilter::PreviousYear => "year".to_owned(),
        }
    }
}

/// A file-size predicate in bytes.
#[derive(Clone, Copy, Debug, PartialEq, Eq, Structural)]
pub struct SizeFilter {
    /// Predicate operator.
    pub op: SizeOp,
    /// Predicate threshold in bytes.
    pub bytes: u64,
}

/// Supported size predicate operators.
#[derive(Clone, Copy, Debug, PartialEq, Eq, Structural)]
pub enum SizeOp {
    /// Strictly greater than the threshold.
    GreaterThan,
    /// Strictly less than the threshold.
    LessThan,
}

/// A Commons file returned by search or category enumeration.
#[derive(Debug, Default)]
pub struct FileHit {
    /// MediaWiki page id.
    pub page_id: u64,
    /// Full title, usually `File:...`.
    pub title: String,
    /// File name without namespace.
    pub file_name: String,
    /// Size in bytes.
    pub size_bytes: u64,
    /// Width in pixels.
    pub width: Option<u64>,
    /// Height in pixels.
    pub height: Option<u64>,
    /// MIME type.
    pub mime: Option<String>,
    /// MediaWiki media type.
    pub media_type: Option<String>,
    /// Original file URL.
    pub url: Option<String>,
    /// Commons description page URL.
    pub description_url: Option<String>,
    /// Thumbnail URL.
    pub thumb_url: Option<String>,
    /// Latest uploader.
    pub uploader: Option<String>,
    /// Latest upload timestamp.
    pub timestamp: Option<String>,
    /// SHA-1 hash.
    pub sha1: Option<String>,
    /// Number of upload versions returned by the API.
    pub version_count: Option<usize>,
    /// Short license name.
    pub license_short_name: Option<String>,
    /// License URL.
    pub license_url: Option<String>,
    /// Categories that Commons metadata lists for the file, with `|` between them.
    pub categories_text: Option<String>,
    /// Commons caption/object name metadata.
    pub caption_text: Option<String>,
    /// Commons description metadata.
    pub description_text: Option<String>,
    /// Author/artist metadata.
    pub artist: Option<String>,
    /// Date metadata.
    pub date_text: Option<String>,
    /// Camera model from EXIF metadata.
    pub camera_model: Option<String>,
    /// Exposure time from EXIF metadata, formatted for display.
    pub exposure_time: Option<String>,
    /// F-number from EXIF metadata, formatted for display.
    pub f_number: Option<String>,
    /// ISO speed rating from EXIF metadata, formatted for display.
    pub iso_speed: Option<String>,
    /// Lens focal length from EXIF metadata, formatted for display.
    pub focal_length: Option<String>,
    /// Coordinates, if present.
    pub coordinates: Option<Coordinates>,
    /// Whether Commons metadata marks the file as animated.
    pub animated: bool,
    /// Media duration in seconds.
    pub duration_seconds: Option<NumberText>,
}

/// Copies optional coordinates.
fn clone_coordinates(c: &Option<Coordinates>) -> (r: Option<Coordinates>)
    ensures
        r == *c,
{
    match c {
        Some(x) => Some(Coordinates { lat: x.lat.clone(), lon: x.lon.clone() }),
        None => None,
    }
}

/// Copies an optional number.
fn clone_number(n: &Option<NumberText>) -> (r: Option<NumberText>)
    ensures
        r == *n,
{
    match n {
        Some(x) => Some(x.clone()),
        None => None,
    }
}

impl Clone for FileHit {
    fn clone(&self) -> (r: Self)
        ensures
            r == *self,
    {
        FileHit {
            page_id: self.page_id,
            title: self.title.clone(),
            file_name: self.file_name.clone(),
            size_bytes: self.size_bytes,
            width: self.width,
            height: self.height,
            mime: text::clone_opt(&self.mime),
            media_type: text::clone_opt(&self.media_type),
            url: text::clone_opt(&self.url),
            description_url: text::clone_opt(&self.description_url),
            thumb_url: text::clone_opt(&self.thumb_url),
            uploader: text::clone_opt(&self.uploader),
            timestamp: text::clone_opt(&self.timestamp),
            sha1: text::clone_opt(&self.sha1),
            version_count: self.version_count,
            license_short_name: text::clone_opt(&self.license_short_name),
            license_url: text::clone_opt(&self.license_url),
            categories_text: text::clone_opt(&self.categories_text),
            caption_text: text::clone_opt(&self.caption_text),
            description_text: text::clone_opt(&self.description_text),
            artist: text::clone_opt(&self.artist),
            date_text: text::clone_opt(&self.date_text),
            camera_model: text::clone_opt(&self.camera_model),
            exposure_time: text::clone_opt(&self.exposure_time),
            f_number: text::clone_opt(&self.f_number),
            iso_speed: text::clone_opt(&self.iso_speed),
            focal_length: text::clone_opt(&self.focal_length),
            coordinates: clone_coordinates(&self.coordinates),
            animated: self.animated,
            duration_seconds: clone_number(&self.duration_seconds),
        }
    }
}

/// The lower-case extension of a file name: what stands after its last dot.
pub open spec fn name_extension(name: Seq<char>) -> Option<Seq<char>> {
    match text::cut_last(name, '.') {
        Some((_, ext)) => Some(text::lowered(ext)),
        None => None,
    }
}

impl FileHit {
    /// True where the metadata says that the file is audio.
    pub open spec fn audio(self) -> bool {
        ||| match self.media_type {
            Some(t) => text::lowered(t@) == text::lowered("AUDIO"@),
            None => false,
        }
        ||| match self.mime {
            Some(m) => text::begins(m@, "audio/"@),
            None => false,
        }
    }

    /// True of files whose extension is that of a paginated document.
    pub open spec fn paginated(self) -> bool {
        match name_extension(self.file_name@) {
            Some(e) => e == "pdf"@ || e == "djvu"@ || e == "djv"@,
            None => false,
        }
    }

    /// The title that history links use.
    pub open spec fn link_title(self) -> Option<Seq<char>> {
        if text::trimmed(self.title@).len() > 0 {
            Some(self.title@)
        } else if text::trimmed(self.file_name@).len() > 0 {
            Some("File:"@ + self.file_name@)
        } else {
            None
        }
    }

    /// The address of the file's history page.
    pub open spec fn history_address(self) -> Option<Seq<char>> {
        match self.link_title() {
            Some(t) => Some(
                "https://commons.wikimedia.org/w/index.php?title="@ + escaping::percent_encoded(t)
                    + "&action=history"@,
            ),
            None => None,
        }
    }

    /// Returns the lower-case extension from the file name.
    pub fn extension(&self) -> (r: Option<String>)
        ensures
            text::opt_text(r) == name_extension(self.file_name@),
    {
        match text::rsplit_once(self.file_name.as_str(), '.') {
            Some((_, ext)) => Some(text::ascii_lowercase(ext.as_str())),
            None => None,
        }
    }

    /// Returns true when Commons or MIME metadata indicates audio.
    pub fn is_audio(&self) -> (r: bool)
        ensures
            r == self.audio(),
    {
        let by_type = match &self.media_type {
            Some(t) => text::same_ignoring_case(t.as_str(), "AUDIO"),
            None => false,
        };
        let by_mime = match &self.mime {
            Some(m) => text::starts_with(m.as_str(), "audio/"),
            None => false,
        };
        by_type || by_mime
    }

    /// Returns true for PDF and DjVu files.
    pub fn is_paginated_document(&self) -> (r: bool)
        ensures
            r == self.paginated(),
    {
        match self.extension() {
            Some(e) => text::same(e.as_str(), "pdf") || text::same(e.as_str(), "djvu")
                || text::same(e.as_str(), "djv"),
            None => false,
        }
    }

    /// Returns the Commons file-history action URL.
    pub fn history_url(&self) -> (r: Option<String>)
        ensures
            text::opt_text(r) == self.history_address(),
    {
        match self.history_title() {
            Some(title) => Some(
                "https://commons.wikimedia.org/w/index.php?title=".to_owned().concat(
                    escaping::url_encode(title.as_str()).as_str(),
                ).concat("&action=history"),
            ),
            None => None,
        }
    }

    /// Returns the best MediaWiki title for history links.
    fn history_title(&self) -> (r: Option<String>)
        ensures
            text::opt_text(r) == self.link_title(),
    {
        if !text::blank(self.title.as_str()) {
            return Some(self.title.clone());
        }
        if !text::blank(self.file_name.as_str()) {
            return Some("File:".to_owned().concat(self.file_name.as_str()));
        }
        None
    }
}

/// A number of a JSON document, in the forms in which it is shown.
#[derive(Debug, PartialEq, Eq)]
pub struct NumberText {
    /// The number as JSON writes it.
    pub written: String,
    /// The number, where it is a whole one that is not negative.
    pub whole: Option<u64>,
    /// The number with six decimals.
    pub six_decimals: String,
    /// The number with one decimal.
    pub one_decimal: String,
}

impl Clone for NumberText {
    fn clone(&self) -> (r: Self)
        ensures
            r == *self,
    {
        NumberText {
            written: self.written.clone(),
            whole: self.whole,
            six_decimals: self.six_decimals.clone(),
            one_decimal: self.one_decimal.clone(),
        }
    }
}

/// A latitude/longitude pair in degrees.
#[derive(Debug, PartialEq, Eq)]
pub struct Coordinates {
    /// Latitude.
    pub lat: NumberText,
    /// Longitude.
    pub lon: NumberText,
}

impl Coordinates {
    /// The address of the place on OpenStreetMap.
    pub open spec fn map_address(self) -> Seq<char> {
        "https://www.openstreetmap.org/?mlat="@ + self.lat.six_decimals@ + "&mlon="@
            + self.lon.six_decimals@ + "#map=15/"@ + self.lat.six_decimals@ + "/"@
            + self.lon.six_decimals@
    }

    /// Returns a clickable OpenStreetMap URL.
    pub fn openstreetmap_url(&self) -> (r: String)
        ensures
            r@ == self.map_address(),
    {
        let lat = self.lat.six_decimals.as_str();
        let lon = self.lon.six_decimals.as_str();
        "https://www.openstreetmap.org/?mlat=".to_owned().concat(lat).concat("&mlon=").concat(
            lon,
        ).concat("#map=15/").concat(lat).concat("/").concat(lon)
    }
}

/// A Commons category search result.
#[derive(Debug, Default)]
pub struct CategoryHit {
    /// MediaWiki page id.
    pub page_id: u64,
    /// Full title, usually `Category:...`.
    pub title: String,
    /// Title without namespace.
    pub display_title: String,
    /// Optional direct file count.
    pub file_count: Option<u64>,
}

impl Clone for CategoryHit {
    fn clone(&self) -> (r: Self)
        ensures
            r == *self,
    {
        CategoryHit {
            page_id: self.page_id,
            title: self.title.clone(),
            display_title: self.display_title.clone(),
            file_count: self.file_count,
        }
    }
}

/// Category page summary and child listings.
#[derive(Debug, Default)]
pub struct CategoryInfo {
    /// Category page id.
    pub page_id: u64,
    /// Full category title.
    pub title: String,
    /// Plain-text description.
    pub description: Option<String>,
    /// Wikidata item id, if linked.
    pub wikidata_item: Option<String>,
    /// Rendered clickable Wikidata key/value claims.
    pub wikidata_claims_html: Option<String>,
    /// Direct files.
    pub files: Vec<FileHit>,
    /// Direct subcategories.
    pub subcategories: Vec<CategoryHit>,
}

impl CategoryInfo {
    /// Returns a Wikidata URL when the category is linked to Wikidata.
    pub fn wikidata_url(&self) -> (r: Option<String>)
        ensures
            text::opt_text(r) == (match self.wikidata_item {
                Some(id) => Some("https://www.wikidata.org/wiki/"@ + id@),
                None => None,
            }),
    {
        match &self.wikidata_item {
            Some(id) => Some("https://www.wikidata.org/wiki/".to_owned().concat(id.as_str())),
            None => None,
        }
    }
}

/// The word under which a file family is stored names that file family.
pub proof fn law_file_type_round_trip(t: FileType)
    ensures
        FileType::of_word(word(t.pref_word())) == Some(t),
{
    reveal_strlit("all");
    reveal_strlit("images");
    reveal_strlit("audio");
    reveal_strlit("video");
    reveal_strlit("image");
    reveal_strlit("sound");
    reveal_strlit("music");
    reveal_strlit("videos");
    lemma_word_of_plain(t.pref_word());
    assert("all"@[0] == 'a' && "images"@[0] == 'i' && "image"@[0] == 'i');
    assert("audio"@[0] == 'a' && "video"@[0] == 'v' && "videos"@[0] == 'v');
}

/// The word under which a delivery mode is stored names that delivery mode.
pub proof fn law_delivery_mode_round_trip(m: DeliveryMode)
    ensures
        DeliveryMode::of_word(word(m.pref_word())) == Some(m),
{
    reveal_strlit("buttons");
    reveal_strlit("links");
    reveal_strlit("links10");
    reveal_strlit("img");
    reveal_strlit("img10");
    reveal_strlit("images10");
    reveal_strlit("images20");
    lemma_word_of_plain(m.pref_word());
    assert("buttons"@[0] == 'b' && "links10"@[0] == 'l' && "images10"@[0] == 'i');
    assert("images10"@[6] == '1' && "images20"@[6] == '2');
}

/// The word under which a page mode is stored names that page mode.
pub proof fn law_page_mode_round_trip(m: DocumentPageMode)
    ensures
        DocumentPageMode::of_word(word(m.pref_word())) == Some(m),
{
    reveal_strlit("original");
    reveal_strlit("rendered");
    reveal_strlit("pages");
    lemma_word_of_plain(m.pref_word());
    assert("original"@[0] == 'o' && "rendered"@[0] == 'r');
}

/// A text of lower-case ASCII letters and digits is its own word.
proof fn lemma_word_of_plain(s: Seq<char>)
    requires
        s.len() > 0,
        forall|i: int| 0 <= i < s.len() ==> 'a' <= #[trigger] s[i] <= 'z' || '0' <= s[i] <= '9',
    ensures
        word(s) == s,
{
    assert(!text::is_white(s[0]));
    assert(!text::is_white(s.last()));
    assert(text::drop_leading(s, text::white_class()) == s);
    assert(text::drop_trailing(s, text::white_class()) == s);
    assert(text::lowered(s) =~= s);
}

} // verus!
