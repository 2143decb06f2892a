//! Result lists that are shown page by page.

use vstd::prelude::*;
use vstd::string::*;
use vstd::utf8::*;
use crate::commons_cache::{Cache, bounded_insert};
use crate::commons_cache;
use crate::escaping;
use crate::models::{CategoryHit, FileHit};
use crate::text;

verus! {

/// Number of buttons shown on one paginated Telegram result page.
pub const BUTTON_PAGE_SIZE: usize = 20;

/// Number of result lists that are kept.
pub const MAX_PAGINATED_LISTS: usize = 256;

/// One page of a stored paginated result list.
#[derive(Debug, PartialEq, Eq)]
pub struct PaginatedPage<T> {
    /// Items that should be rendered on the current page.
    pub items: Vec<T>,
    /// Zero-based page index.
    pub page_index: usize,
    /// Total number of pages in the stored list.
    pub total_pages: usize,
    /// Total number of items in the stored list.
    pub total_items: usize,
}

/// The number of pages of a list: enough for all items, and at least one.
pub open spec fn pages(total_items: nat) -> nat {
    if total_items == 0 {
        1
    } else {
        ((total_items - 1) / BUTTON_PAGE_SIZE as int + 1) as nat
    }
}

/// Returns the number of pages required for a result list.
pub fn page_count(total_items: usize) -> (r: usize)
    ensures
        r == pages(total_items as nat),
        r >= 1,
        r <= total_items || r == 1,
{
    if total_items == 0 {
        1
    } else {
        (total_items - 1) / BUTTON_PAGE_SIZE + 1
    }
}

/// The index of the page that is shown where a page is asked for: the last one at most.
pub open spec fn shown_page(page_index: nat, total_items: nat) -> nat {
    if page_index < pages(total_items) {
        page_index
    } else {
        (pages(total_items) - 1) as nat
    }
}

/// The index of the item behind the last one of a page.
pub open spec fn page_end(page: nat, total_items: nat) -> nat {
    if (page + 1) * BUTTON_PAGE_SIZE <= total_items {
        ((page + 1) * BUTTON_PAGE_SIZE) as nat
    } else {
        total_items
    }
}

/// The index of the first item of a page.
pub open spec fn page_start(page: nat) -> nat {
    page * BUTTON_PAGE_SIZE as nat
}

/// True of a page of a list: the items of the page that is shown where a page is asked for.
pub open spec fn is_page<T: Clone>(
    items: Seq<T>,
    page_index: nat,
    p: Option<PaginatedPage<T>>,
) -> bool {
    match p {
        Some(p) => {
            let page = shown_page(page_index, items.len());
            let start = page_start(page);
            &&& items.len() > 0
            &&& p.page_index == page
            &&& p.total_pages == pages(items.len())
            &&& p.total_items == items.len()
            &&& p.items@.len() == page_end(page, items.len()) - start
            &&& forall|i: int|
                0 <= i < p.items@.len() ==> cloned::<T>(items[start + i], #[trigger] p.items@[i])
        },
        None => items.len() == 0,
    }
}

/// Returns one page of an in-memory list.
pub fn page_from_items<T: Clone>(items: &Vec<T>, page_index: usize) -> (r: Option<PaginatedPage<T>>)
    ensures
        is_page(items@, page_index as nat, r),
{
    if items.len() == 0 {
        return None;
    }
    let total_items: usize = items.len();
    let total_pages: usize = page_count(total_items);
    let page: usize = if page_index < total_pages {
        page_index
    } else {
        total_pages - 1
    };
    let start: usize = page * BUTTON_PAGE_SIZE;
    let end: usize = if total_items - start >= BUTTON_PAGE_SIZE {
        start + BUTTON_PAGE_SIZE
    } else {
        total_items
    };
    let mut out: Vec<T> = Vec::new();
    let mut i: usize = start;
    while i < end
        invariant
            start <= i <= end <= items.len(),
            out@.len() == i - start,
            forall|k: int| 0 <= k < out@.len() ==> cloned::<T>(items@[start + k], #[trigger] out@[k]),
        decreases end - i,
    {
        out.push(items[i].clone());
        i += 1;
    }
    Some(PaginatedPage { items: out, page_index: page, total_pages, total_items })
}

/// Every item of a list stands on exactly one page, and pages are neither empty nor too long.
pub proof fn law_pages_cover_list(total_items: nat, i: nat, page: nat)
    requires
        i < total_items,
        page < pages(total_items),
    ensures
        i / (BUTTON_PAGE_SIZE as nat) < pages(total_items),
        (page_start(page) <= i < page_end(page, total_items)) == (page == i / (
        BUTTON_PAGE_SIZE as nat)),
        page_start(page) < page_end(page, total_items) <= total_items,
        page_end(page, total_items) - page_start(page) <= BUTTON_PAGE_SIZE,
{
}

/// The pages of a list follow each other without a gap, from its first item to its last.
pub proof fn law_pages_are_contiguous(total_items: nat, page: nat)
    requires
        total_items > 0,
        page < pages(total_items),
    ensures
        page_start(0) == 0,
        page + 1 < pages(total_items) ==> page_end(page, total_items) == page_start(page + 1),
        page + 1 == pages(total_items) ==> page_end(page, total_items) == total_items,
{
}

// Tokens.

/// The bytes of a number, least significant first.
pub open spec fn number_bytes(n: nat, count: nat) -> Seq<u8>
    decreases count,
{
    if count == 0 {
        seq![]
    } else {
        seq![(n % 256) as u8] + number_bytes(n / 256, (count - 1) as nat)
    }
}

/// Adds the eight bytes of a number.
fn push_number(bytes: &mut Vec<u8>, n: u64)
    ensures
        final(bytes)@ == old(bytes)@ + number_bytes(n as nat, 8),
{
    let ghost was = bytes@;
    let mut rest: u64 = n;
    let mut left: u8 = 8;
    assert(bytes@ + number_bytes(n as nat, 8) =~= was + number_bytes(n as nat, 8));
    while left > 0
        invariant
            left <= 8,
            bytes@ + number_bytes(rest as nat, left as nat) == was + number_bytes(n as nat, 8),
        decreases left,
    {
        let ghost before = bytes@;
        bytes.push((rest % 256) as u8);
        proof {
            let tail = number_bytes((rest / 256) as nat, (left - 1) as nat);
            assert(before + (seq![(rest % 256) as u8] + tail) =~= bytes@ + tail);
        }
        rest = rest / 256;
        left -= 1;
    }
    assert(bytes@ + seq![] =~= bytes@);
}

/// Adds bytes to bytes.
fn push_bytes(bytes: &mut Vec<u8>, more: &str)
    ensures
        final(bytes)@ == old(bytes)@ + encode_utf8(more@),
{
    let mut tail: Vec<u8> = more.as_bytes_vec();
    bytes.append(&mut tail);
}

/// The bytes of an entry: its page id, its title and a zero.
pub open spec fn entry_bytes(page_id: u64, title: Seq<char>) -> Seq<u8> {
    number_bytes(page_id as nat, 8) + encode_utf8(title) + seq![0u8]
}

/// The bytes of a list of files.
pub open spec fn files_bytes(files: Seq<FileHit>) -> Seq<u8>
    decreases files.len(),
{
    if files.len() == 0 {
        encode_utf8("files"@)
    } else {
        files_bytes(files.drop_last()) + entry_bytes(files.last().page_id, files.last().title@)
    }
}

/// The bytes of a list of categories.
pub open spec fn categories_bytes(categories: Seq<CategoryHit>) -> Seq<u8>
    decreases categories.len(),
{
    if categories.len() == 0 {
        encode_utf8("categories"@)
    } else {
        categories_bytes(categories.drop_last()) + entry_bytes(
            categories.last().page_id,
            categories.last().title@,
        )
    }
}

/// The token of bytes: the first sixteen hexadecimal digits of their SHA-256 digest.
pub open spec fn token_of(bytes: Seq<u8>) -> Seq<char> {
    escaping::hex_text(escaping::sha256(bytes)).take(16)
}

/// Adds the bytes of an entry.
fn push_entry(bytes: &mut Vec<u8>, page_id: u64, title: &str)
    ensures
        final(bytes)@ == old(bytes)@ + entry_bytes(page_id, title@),
{
    let ghost was = bytes@;
    push_number(bytes, page_id);
    push_bytes(bytes, title);
    bytes.push(0);
    assert(bytes@ =~= was + entry_bytes(page_id, title@));
}

/// Shortens the hexadecimal form of a digest to a compact Telegram callback-safe token.
pub fn token_of_digest(digest: &Vec<u8>) -> (r: String)
    requires
        digest@.len() >= 8,
    ensures
        r@ == escaping::hex_text(digest@).take(16),
{
    let v = text::chars_of(escaping::hex_encode(digest).as_str());
    assert(v@.take(16) =~= v@.subrange(0, 16));
    text::substring(&v, 0, 16)
}

/// Converts bytes into a compact Telegram callback-safe token.
fn short_token(bytes: &Vec<u8>) -> (r: String)
    ensures
        r@ == token_of(bytes@),
{
    let digest = escaping::sha256_digest(bytes.as_slice());
    token_of_digest(&digest)
}

/// Computes a callback token for a list of files.
pub fn file_list_token(files: &Vec<FileHit>) -> (r: String)
    ensures
        r@ == token_of(files_bytes(files@)),
{
    let mut bytes: Vec<u8> = "files".as_bytes_vec();
    let mut i: usize = 0;
    assert(files@.take(0) =~= seq![]);
    while i < files.len()
        invariant
            i <= files.len(),
            bytes@ == files_bytes(files@.take(i as int)),
        decreases files.len() - i,
    {
        proof {
            assert(files@.take(i + 1).drop_last() =~= files@.take(i as int));
            assert(files@.take(i + 1).last() == files@[i as int]);
        }
        push_entry(&mut bytes, files[i].page_id, files[i].title.as_str());
        i += 1;
    }
    assert(files@.take(files.len() as int) =~= files@);
    short_token(&bytes)
}

/// Computes a callback token for a list of categories.
pub fn category_list_token(categories: &Vec<CategoryHit>) -> (r: String)
    ensures
        r@ == token_of(categories_bytes(categories@)),
{
    let mut bytes: Vec<u8> = "categories".as_bytes_vec();
    let mut i: usize = 0;
    assert(categories@.take(0) =~= seq![]);
    while i < categories.len()
        invariant
            i <= categories.len(),
            bytes@ == categories_bytes(categories@.take(i as int)),
        decreases categories.len() - i,
    {
        proof {
            assert(categories@.take(i + 1).drop_last() =~= categories@.take(i as int));
            assert(categories@.take(i + 1).last() == categories@[i as int]);
        }
        push_entry(&mut bytes, categories[i].page_id, categories[i].title.as_str());
        i += 1;
    }
    assert(categories@.take(categories.len() as int) =~= categories@);
    short_token(&bytes)
}

/// Copies a list.
fn clone_items<T: Clone>(items: &Vec<T>) -> (r: Vec<T>)
    ensures
        r@.len() == items@.len(),
        forall|i: int| 0 <= i < items@.len() ==> cloned::<T>(items@[i], #[trigger] r@[i]),
{
    let mut out: Vec<T> = Vec::new();
    let mut i: usize = 0;
    while i < items.len()
        invariant
            i <= items.len(),
            out@.len() == i,
            forall|k: int| 0 <= k < i ==> cloned::<T>(items@[k], #[trigger] out@[k]),
        decreases items.len() - i,
    {
        out.push(items[i].clone());
        i += 1;
    }
    out
}

/// What is kept after a list was stored under a token: the list, and all that was kept before, but
/// for one list where the limit was reached.
pub open spec fn stored<T>(
    was: Map<Seq<char>, Vec<T>>,
    now: Map<Seq<char>, Vec<T>>,
    token: Seq<char>,
    items: Seq<T>,
) -> bool {
    exists|list: Vec<T>|
        list@ == items && #[trigger] commons_cache::bounded_inserted(
            was,
            now,
            token,
            list,
            MAX_PAGINATED_LISTS as nat,
        )
}

/// Stores a file result list and returns a short callback token for it.
pub fn store_file_list(lists: &mut Cache<Vec<FileHit>>, files: &Vec<FileHit>) -> (r: String)
    requires
        old(lists).well_formed(),
    ensures
        final(lists).well_formed(),
        r@ == token_of(files_bytes(files@)),
        stored(old(lists)@, final(lists)@, r@, files@),
        old(lists)@.len() <= MAX_PAGINATED_LISTS ==> final(lists)@.len() <= MAX_PAGINATED_LISTS,
{
    let token = file_list_token(files);
    let copy = clone_items(files);
    assert(copy@ =~= files@);
    bounded_insert(lists, token.clone(), copy, MAX_PAGINATED_LISTS);
    token
}

/// Stores a category result list and returns a short callback token for it.
pub fn store_category_list(lists: &mut Cache<Vec<CategoryHit>>, categories: &Vec<CategoryHit>) -> (r:
    String)
    requires
        old(lists).well_formed(),
    ensures
        final(lists).well_formed(),
        r@ == token_of(categories_bytes(categories@)),
        stored(old(lists)@, final(lists)@, r@, categories@),
        old(lists)@.len() <= MAX_PAGINATED_LISTS ==> final(lists)@.len() <= MAX_PAGINATED_LISTS,
{
    let token = category_list_token(categories);
    let copy = clone_items(categories);
    assert(copy@ =~= categories@);
    bounded_insert(lists, token.clone(), copy, MAX_PAGINATED_LISTS);
    token
}

/// True of a page of the list that is kept under a token; of nothing where no list is.
pub open spec fn is_kept_page<T: Clone>(
    lists: Map<Seq<char>, Vec<T>>,
    token: Seq<char>,
    page_index: nat,
    p: Option<PaginatedPage<T>>,
) -> bool {
    if lists.dom().contains(token) {
        is_page(lists[token]@, page_index, p)
    } else {
        p is None
    }
}

/// Returns one stored file page, or `None` when the token expired.
pub fn file_page(lists: &Cache<Vec<FileHit>>, token: &str, page_index: usize) -> (r: Option<
    PaginatedPage<FileHit>,
>)
    requires
        lists.well_formed(),
    ensures
        is_kept_page(lists@, token@, page_index as nat, r),
{
    match lists.get(token) {
        Some(items) => page_from_items(items, page_index),
        None => None,
    }
}

/// Returns one stored category page, or `None` when the token expired.
pub fn category_page(lists: &Cache<Vec<CategoryHit>>, token: &str, page_index: usize) -> (r: Option<
    PaginatedPage<CategoryHit>,
>)
    requires
        lists.well_formed(),
    ensures
        is_kept_page(lists@, token@, page_index as nat, r),
{
    match lists.get(token) {
        Some(items) => page_from_items(items, page_index),
        None => None,
    }
}

/// A list of files that was stored is served: asking for a page of it gives the files of that
/// page.
pub proof fn law_stored_files_are_served(
    was: Map<Seq<char>, Vec<FileHit>>,
    now: Map<Seq<char>, Vec<FileHit>>,
    token: Seq<char>,
    files: Seq<FileHit>,
    page_index: nat,
    p: Option<PaginatedPage<FileHit>>,
)
    requires
        files.len() > 0,
        stored(was, now, token, files),
        is_kept_page(now, token, page_index, p),
    ensures
        ({
            let page = shown_page(page_index, files.len());
            &&& p is Some
            &&& (p->0).page_index == page
            &&& (p->0).total_pages == pages(files.len())
            &&& (p->0).items@ == files.subrange(
                page_start(page) as int,
                page_end(page, files.len()) as int,
            )
        }),
{
    let list = choose|list: Vec<FileHit>|
        list@ == files && #[trigger] commons_cache::bounded_inserted(
            was,
            now,
            token,
            list,
            MAX_PAGINATED_LISTS as nat,
        );
    assert(now.dom().contains(token) && now[token] == list);
    let page = shown_page(page_index, files.len());
    let items = (p->0).items@;
    assert(items =~= files.subrange(
        page_start(page) as int,
        page_end(page, files.len()) as int,
    ));
}

/// A list of categories that was stored is served: asking for a page of it gives the categories
/// of that page.
pub proof fn law_stored_categories_are_served(
    was: Map<Seq<char>, Vec<CategoryHit>>,
    now: Map<Seq<char>, Vec<CategoryHit>>,
    token: Seq<char>,
    categories: Seq<CategoryHit>,
    page_index: nat,
    p: Option<PaginatedPage<CategoryHit>>,
)
    requires
        categories.len() > 0,
        stored(was, now, token, categories),
        is_kept_page(now, token, page_index, p),
    ensures
        ({
            let page = shown_page(page_index, categories.len());
            &&& p is Some
            &&& (p->0).page_index == page
            &&& (p->0).total_pages == pages(categories.len())
            &&& (p->0).items@ == categories.subrange(
                page_start(page) as int,
                page_end(page, categories.len()) as int,
            )
        }),
{
    let list = choose|list: Vec<CategoryHit>|
        list@ == categories && #[trigger] commons_cache::bounded_inserted(
            was,
            now,
            token,
            list,
            MAX_PAGINATED_LISTS as nat,
        );
    assert(now.dom().contains(token) && now[token] == list);
    let page = shown_page(page_index, categories.len());
    let items = (p->0).items@;
    assert(items =~= categories.subrange(
        page_start(page) as int,
        page_end(page, categories.len()) as int,
    ));
}

} // verus!
