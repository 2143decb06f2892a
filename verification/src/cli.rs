//! The command line tool: what it searches for and what it prints.

use vstd::prelude::*;
use vstd::string::*;
use crate::models::{CategoryHit, FileHit, Intent, SearchQuery};
use crate::models;
use crate::numbers;
use crate::parser;
use crate::telegram::human_bytes;
use crate::telegram;
use crate::text;

verus! {

/// Number of results that the tool asks for.
pub const CLI_RESULT_LIMIT: usize = 20;

/// Number of results among which the tool shows previews.
pub const CLI_PREVIEW_LIMIT: usize = 5;

/// What the tool looks for.
#[derive(Debug)]
pub enum CliSearch {
    /// Files.
    Files(SearchQuery),
    /// Categories.
    Categories(String),
}

/// The value of `CliSearch`.
pub enum CliView {
    Files(models::QueryView),
    Categories(Seq<char>),
}

impl View for CliSearch {
    type V = CliView;

    open spec fn view(&self) -> CliView {
        match self {
            CliSearch::Files(q) => CliView::Files(q@),
            CliSearch::Categories(s) => CliView::Categories(s@),
        }
    }
}

/// What the tool looks for, given its words and flags.
pub open spec fn cli_search(words: Seq<char>, bypass_limit: bool, sort_size: bool) -> CliView {
    let query = match parser::intent_of(words) {
        models::IntentView::FileSearch(q) => q,
        _ => models::QueryView::empty(seq![]),
    };
    match parser::intent_of(words) {
        models::IntentView::CategorySearch(name) => CliView::Categories(name),
        _ => CliView::Files(
            models::QueryView {
                bypass_telegram_limit: bypass_limit || query.bypass_telegram_limit,
                sort_by_size: sort_size || query.sort_by_size,
                ..query
            },
        ),
    }
}

/// Reads the words and flags of the tool.
pub fn plan_search(words: &str, bypass_limit: bool, sort_size: bool) -> (r: CliSearch)
    ensures
        r@ == cli_search(words@, bypass_limit, sort_size),
{
    let mut query = match parser::parse_intent(words) {
        Intent::FileSearch(query) => query,
        Intent::CategorySearch(name) => return CliSearch::Categories(name),
        _ => SearchQuery::default(),
    };
    if bypass_limit {
        query.bypass_telegram_limit = true;
    }
    if sort_size {
        query.sort_by_size = true;
    }
    CliSearch::Files(query)
}

/// Returns the size of the largest file that the tool asks for.
pub fn cli_max_file_bytes(bypass_limit: bool, max_file_bytes: u64) -> (r: u64)
    ensures
        r == (if bypass_limit {
            u64::MAX
        } else {
            max_file_bytes
        }),
{
    if bypass_limit {
        u64::MAX
    } else {
        max_file_bytes
    }
}

/// Returns the number of subcategories of a category that the tool downloads.
pub fn subcategory_limit(recursive: bool) -> (r: usize)
    ensures
        r == (if recursive {
            CLI_RESULT_LIMIT
        } else {
            0
        }),
{
    if recursive {
        CLI_RESULT_LIMIT
    } else {
        0
    }
}

/// Builds the line of a category.
pub fn category_line(category: &CategoryHit) -> (r: String)
    ensures
        r@ == numbers::numeral(category.page_id as nat) + "\t"@ + category.title@,
{
    numbers::decimal(category.page_id).concat("\t").concat(category.title.as_str())
}

/// Builds the line of a file in the format for people.
pub fn pretty_line(file: &FileHit) -> (r: String)
    ensures
        r@ == numbers::numeral(file.page_id as nat) + "  "@ + telegram::shown_bytes(
            file.size_bytes as nat,
        ) + "  "@ + (match file.description_url {
            Some(url) => url@,
            None => file.title@,
        }),
{
    let address = match &file.description_url {
        Some(url) => url.clone(),
        None => file.title.clone(),
    };
    numbers::decimal(file.page_id).concat("  ").concat(
        human_bytes(file.size_bytes).as_str(),
    ).concat("  ").concat(address.as_str())
}

/// Builds the line of a file in columns.
pub fn tsv_line(file: &FileHit) -> (r: String)
    ensures
        r@ == numbers::numeral(file.page_id as nat) + "\t"@ + numbers::numeral(
            file.size_bytes as nat,
        ) + "\t"@ + file.file_name@ + "\t"@ + (match file.url {
            Some(url) => url@,
            None => ""@,
        }),
{
    let address = match &file.url {
        Some(url) => url.clone(),
        None => "".to_owned(),
    };
    numbers::decimal(file.page_id).concat("\t").concat(
        numbers::decimal(file.size_bytes).as_str(),
    ).concat("\t").concat(file.file_name.as_str()).concat("\t").concat(address.as_str())
}

/// What stands for a character in the name of a local file.
pub open spec fn local_char(c: char) -> char {
    if c == '/' || c == '\0' {
        '_'
    } else {
        c
    }
}

/// The name of a local file.
pub open spec fn local_name(name: Seq<char>) -> Seq<char> {
    Seq::new(name.len(), |i: int| local_char(name[i]))
}

/// Sanitizes a Commons file name for local filesystem use.
pub fn sanitize_filename(name: &str) -> (r: String)
    ensures
        r@ == local_name(name@),
{
    let v = text::chars_of(name);
    let mut out = String::new();
    let mut i: usize = 0;
    assert(out@ =~= local_name(name@).take(0));
    while i < v.len()
        invariant
            i <= v.len(),
            v@ == name@,
            out@ == local_name(name@).take(i as int),
        decreases v.len() - i,
    {
        let c: char = v[i];
        out.push(
            if c == '/' || c == '\0' {
                '_'
            } else {
                c
            },
        );
        assert(out@ =~= local_name(name@).take(i + 1));
        i += 1;
    }
    assert(local_name(name@).take(v.len() as int) =~= local_name(name@));
    out
}

/// A local file name holds no slash and no zero, and is as long as the name it stands for.
pub proof fn law_local_names_are_safe(name: Seq<char>)
    ensures
        local_name(name).len() == name.len(),
        !local_name(name).contains('/'),
        !local_name(name).contains('\0'),
{
}

/// The address from which a file is previewed.
pub open spec fn preview_source(file: FileHit) -> Option<Seq<char>> {
    if file.thumb_url is Some {
        text::opt_text(file.thumb_url)
    } else {
        text::opt_text(file.url)
    }
}

/// The addresses of the previews among the first `n` files, and whether they are all: an image
/// without an address ends them.
pub open spec fn previews_of(files: Seq<FileHit>, n: nat) -> (Seq<Seq<char>>, bool)
    decreases n,
{
    if n == 0 {
        (seq![], true)
    } else {
        let (urls, whole) = previews_of(files, (n - 1) as nat);
        if !whole || !telegram::is_image(files[n - 1]) {
            (urls, whole)
        } else {
            match preview_source(files[n - 1]) {
                Some(url) => (urls.push(url), true),
                None => (urls, false),
            }
        }
    }
}

/// The number of files among which previews are shown.
pub open spec fn preview_count(total: nat) -> nat {
    if total < CLI_PREVIEW_LIMIT {
        total
    } else {
        CLI_PREVIEW_LIMIT as nat
    }
}

/// Lists the addresses of the images to preview, up to the first that has none, and tells whether
/// all have one.
pub fn preview_images(files: &Vec<FileHit>) -> (r: (Vec<String>, bool))
    ensures
        (text::texts(r.0@), r.1) == previews_of(files@, preview_count(files@.len())),
{
    let n: usize = if files.len() < CLI_PREVIEW_LIMIT {
        files.len()
    } else {
        CLI_PREVIEW_LIMIT
    };
    let mut urls: Vec<String> = Vec::new();
    assert(text::texts(urls@) =~= seq![]);
    let mut whole: bool = true;
    let mut i: usize = 0;
    while i < n
        invariant
            i <= n <= files.len(),
            (text::texts(urls@), whole) == previews_of(files@, i as nat),
        decreases n - i,
    {
        if whole && telegram::has_image_mime(&files[i]) {
            let url = if files[i].thumb_url.is_some() {
                text::clone_opt(&files[i].thumb_url)
            } else {
                text::clone_opt(&files[i].url)
            };
            match url {
                Some(url) => {
                    proof {
                        text::lemma_texts_push(urls@, url);
                    }
                    urls.push(url);
                },
                None => {
                    whole = false;
                },
            }
        }
        i += 1;
    }
    (urls, whole)
}

/// Why no audio can be played.
#[derive(Clone, Copy, Debug, PartialEq, Eq, Structural)]
pub enum AudioFault {
    /// No result is audio.
    NoAudio,
    /// The first audio result has no address.
    NoAddress,
}

impl AudioFault {
    /// Returns the message of the fault.
    pub fn message(self) -> (r: &'static str)
        ensures
            r@ == (match self {
                AudioFault::NoAudio => "no audio file in results"@,
                AudioFault::NoAddress => "audio file has no URL"@,
            }),
    {
        match self {
            AudioFault::NoAudio => "no audio file in results",
            AudioFault::NoAddress => "audio file has no URL",
        }
    }
}

/// The first audio file from `i` on.
pub open spec fn first_audio(files: Seq<FileHit>, i: int) -> Option<FileHit>
    decreases files.len() - i,
{
    if i < 0 || i >= files.len() {
        None
    } else if files[i].audio() {
        Some(files[i])
    } else {
        first_audio(files, i + 1)
    }
}

/// Returns the address of the first audio result.
pub fn play_audio(files: &Vec<FileHit>) -> (r: Result<String, AudioFault>)
    ensures
        match first_audio(files@, 0) {
            Some(file) => match (file.url, r) {
                (Some(url), Ok(s)) => s@ == url@,
                (None, Err(fault)) => fault == AudioFault::NoAddress,
                _ => false,
            },
            None => r == Err::<String, AudioFault>(AudioFault::NoAudio),
        },
{
    let mut i: usize = 0;
    while i < files.len()
        invariant
            i <= files.len(),
            first_audio(files@, 0) == first_audio(files@, i as int),
        decreases files.len() - i,
    {
        if files[i].is_audio() {
            return match &files[i].url {
                Some(url) => Ok(url.clone()),
                None => Err(AudioFault::NoAddress),
            };
        }
        i += 1;
    }
    Err(AudioFault::NoAudio)
}

} // verus!
