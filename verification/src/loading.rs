//! Loading files by title or page id: what is known is taken from a cache, and the rest is asked
//! for in batches. The files come in the order in which they were asked for.

use vstd::prelude::*;
use vstd::string::*;
use crate::commons::{push_imageinfo, push_pair, same_api_username};
use crate::commons;
use crate::commons_cache::{Cache, FILE_METADATA_CACHE_MAX_ENTRIES, bounded_insert};
use crate::commons_cache;
use crate::models::FileHit;
use crate::numbers;
use crate::text;

verus! {

/// What files are looked up by.
#[derive(Clone, Copy, Debug, PartialEq, Eq, Structural)]
pub enum LoadKey {
    /// Titles.
    Title,
    /// Page ids, written as decimal numbers.
    PageId,
}

/// The key of a file.
pub open spec fn key_of(by: LoadKey, hit: FileHit) -> Seq<char> {
    match by {
        LoadKey::Title => hit.title@,
        LoadKey::PageId => numbers::numeral(hit.page_id as nat),
    }
}

/// Writes the key of a file.
fn file_key(by: LoadKey, hit: &FileHit) -> (r: String)
    ensures
        r@ == key_of(by, *hit),
{
    match by {
        LoadKey::Title => hit.title.clone(),
        LoadKey::PageId => numbers::decimal(hit.page_id),
    }
}

/// The number of files that are asked for at once.
pub open spec fn batch_size(by: LoadKey) -> nat {
    match by {
        LoadKey::Title => 10,
        LoadKey::PageId => 50,
    }
}

// Remembering files.

/// True of a file that is remembered under a key.
pub open spec fn memorable(by: LoadKey, hit: FileHit) -> bool {
    match by {
        LoadKey::Title => text::trimmed(hit.title@).len() > 0,
        LoadKey::PageId => hit.page_id != 0,
    }
}

/// What a cache holds after a file was remembered in it.
pub open spec fn one_remembered(
    by: LoadKey,
    was: Map<Seq<char>, FileHit>,
    now: Map<Seq<char>, FileHit>,
    hit: FileHit,
) -> bool {
    if memorable(by, hit) {
        commons_cache::bounded_inserted(
            was,
            now,
            key_of(by, hit),
            hit,
            FILE_METADATA_CACHE_MAX_ENTRIES as nat,
        )
    } else {
        now == was
    }
}

/// What a cache holds after the first `n` files were remembered in it.
pub open spec fn remembered(
    by: LoadKey,
    was: Map<Seq<char>, FileHit>,
    now: Map<Seq<char>, FileHit>,
    files: Seq<FileHit>,
    n: nat,
) -> bool
    decreases n,
{
    if n == 0 {
        now == was
    } else {
        exists|mid: Map<Seq<char>, FileHit>|
            remembered(by, was, mid, files, (n - 1) as nat) && #[trigger] one_remembered(
                by,
                mid,
                now,
                files[n - 1],
            )
    }
}

/// Remembers files under their titles or page ids. A file without one is not remembered.
pub fn remember_files(cache: &mut Cache<FileHit>, by: LoadKey, files: &Vec<FileHit>)
    requires
        old(cache).well_formed(),
    ensures
        final(cache).well_formed(),
        remembered(by, old(cache)@, final(cache)@, files@, files@.len()),
        old(cache)@.len() <= FILE_METADATA_CACHE_MAX_ENTRIES ==> final(cache)@.len()
            <= FILE_METADATA_CACHE_MAX_ENTRIES,
{
    let ghost was = cache@;
    let mut i: usize = 0;
    while i < files.len()
        invariant
            i <= files.len(),
            cache.well_formed(),
            remembered(by, was, cache@, files@, i as nat),
            was.len() <= FILE_METADATA_CACHE_MAX_ENTRIES ==> cache@.len()
                <= FILE_METADATA_CACHE_MAX_ENTRIES,
        decreases files.len() - i,
    {
        let ghost mid = cache@;
        let file = &files[i];
        let keep: bool = match by {
            LoadKey::Title => !text::blank(file.title.as_str()),
            LoadKey::PageId => file.page_id != 0,
        };
        if keep {
            bounded_insert(cache, file_key(by, file), file.clone(), FILE_METADATA_CACHE_MAX_ENTRIES);
        }
        proof {
            let n = (i + 1) as nat;
            assert(remembered(by, was, mid, files@, (n - 1) as nat));
            assert(one_remembered(by, mid, cache@, files@[n - 1]));
            assert(remembered(by, was, cache@, files@, n));
        }
        i += 1;
    }
}

/// True of a cache that holds each file under its key.
pub open spec fn well_keyed(by: LoadKey, cache: Map<Seq<char>, FileHit>) -> bool {
    forall|k: Seq<char>| #[trigger] cache.dom().contains(k) ==> key_of(by, cache[k]) == k
}

/// A cache in which files are remembered keeps each under its key.
pub proof fn law_remembered_files_stay_keyed(
    by: LoadKey,
    was: Map<Seq<char>, FileHit>,
    now: Map<Seq<char>, FileHit>,
    files: Seq<FileHit>,
    n: nat,
)
    requires
        well_keyed(by, was),
        remembered(by, was, now, files, n),
    ensures
        well_keyed(by, now),
    decreases n,
{
    if n > 0 {
        let mid = choose|mid: Map<Seq<char>, FileHit>|
            remembered(by, was, mid, files, (n - 1) as nat) && #[trigger] one_remembered(
                by,
                mid,
                now,
                files[n - 1],
            );
        law_remembered_files_stay_keyed(by, was, mid, files, (n - 1) as nat);
        if memorable(by, files[n - 1]) && !mid.dom().contains(key_of(by, files[n - 1]))
            && mid.len() >= FILE_METADATA_CACHE_MAX_ENTRIES {
            let gone = choose|gone: Seq<char>| #[trigger]
                mid.dom().contains(gone) && now == mid.remove(gone).insert(
                    key_of(by, files[n - 1]),
                    files[n - 1],
                );
            assert forall|k: Seq<char>| #[trigger] now.dom().contains(k) implies key_of(by, now[k])
                == k by {
                if k != key_of(by, files[n - 1]) {
                    assert(mid.dom().contains(k));
                }
            }
        } else if memorable(by, files[n - 1]) {
            assert forall|k: Seq<char>| #[trigger] now.dom().contains(k) implies key_of(by, now[k])
                == k by {
                if k != key_of(by, files[n - 1]) {
                    assert(mid.dom().contains(k));
                }
            }
        }
    }
}

/// The file that was remembered last is found under its key.
pub proof fn law_last_file_is_remembered(
    by: LoadKey,
    was: Map<Seq<char>, FileHit>,
    now: Map<Seq<char>, FileHit>,
    files: Seq<FileHit>,
)
    requires
        files.len() > 0,
        memorable(by, files.last()),
        remembered(by, was, now, files, files.len()),
    ensures
        now.dom().contains(key_of(by, files.last())),
        now[key_of(by, files.last())] == files.last(),
{
}

// Loading files.

/// The file that a cache holds under a key.
pub open spec fn known(cache: Map<Seq<char>, FileHit>, key: Seq<char>) -> Option<FileHit> {
    if cache.dom().contains(key) {
        Some(cache[key])
    } else {
        None
    }
}

/// The files that a cache holds under keys, each in the place of its key.
pub open spec fn known_files(cache: Map<Seq<char>, FileHit>, keys: Seq<Seq<char>>) -> Seq<
    Option<FileHit>,
> {
    Seq::new(keys.len(), |i: int| known(cache, keys[i]))
}

/// The places among the first `n` that are empty, in order.
pub open spec fn empty_places(ordered: Seq<Option<FileHit>>, n: nat) -> Seq<usize>
    decreases n,
{
    if n == 0 {
        seq![]
    } else if ordered[n - 1] is None {
        empty_places(ordered, (n - 1) as nat).push((n - 1) as usize)
    } else {
        empty_places(ordered, (n - 1) as nat)
    }
}

/// The last file with a key.
pub open spec fn last_keyed(by: LoadKey, found: Seq<FileHit>, key: Seq<char>) -> Option<FileHit>
    decreases found.len(),
{
    if found.len() == 0 {
        None
    } else if key_of(by, found.last()) == key {
        Some(found.last())
    } else {
        last_keyed(by, found.drop_last(), key)
    }
}

/// Finds the last file with a key.
fn find_keyed(by: LoadKey, found: &Vec<FileHit>, key: &str) -> (r: Option<FileHit>)
    ensures
        r == last_keyed(by, found@, key@),
{
    let mut n: usize = found.len();
    assert(found@.take(found.len() as int) =~= found@);
    while n > 0
        invariant
            n <= found.len(),
            last_keyed(by, found@, key@) == last_keyed(by, found@.take(n as int), key@),
        decreases n,
    {
        proof {
            assert(found@.take(n as int).drop_last() =~= found@.take(n - 1));
            assert(found@.take(n as int).last() == found@[n - 1]);
        }
        n -= 1;
        if text::same(file_key(by, &found[n]).as_str(), key) {
            return Some(found[n].clone());
        }
    }
    None
}

/// Files with those put in that were found for the places `missing[from..to]`.
pub open spec fn filled(
    by: LoadKey,
    ordered: Seq<Option<FileHit>>,
    keys: Seq<Seq<char>>,
    missing: Seq<usize>,
    found: Seq<FileHit>,
    from: nat,
    to: nat,
) -> Seq<Option<FileHit>>
    decreases to,
{
    if to <= from {
        ordered
    } else {
        let before = filled(by, ordered, keys, missing, found, from, (to - 1) as nat);
        let place = missing[to - 1] as int;
        match last_keyed(by, found, keys[place]) {
            Some(hit) => before.update(place, Some(hit)),
            None => before,
        }
    }
}

/// The files that are there, in order.
pub open spec fn present(ordered: Seq<Option<FileHit>>) -> Seq<FileHit>
    decreases ordered.len(),
{
    if ordered.len() == 0 {
        seq![]
    } else {
        match ordered.last() {
            Some(hit) => present(ordered.drop_last()).push(hit),
            None => present(ordered.drop_last()),
        }
    }
}

/// Where a batch that starts at a place ends.
pub open spec fn batch_end(by: LoadKey, next: nat, total: nat) -> nat {
    if next + batch_size(by) < total {
        next + batch_size(by)
    } else {
        total
    }
}

/// The loading of files.
#[derive(Debug)]
pub struct FileLoad {
    /// What files are looked up by.
    pub by: LoadKey,
    /// The keys that were asked for.
    pub keys: Vec<String>,
    /// The files that are known, each in the place of its key.
    pub ordered: Vec<Option<FileHit>>,
    /// The places of the keys that the cache did not know.
    pub missing: Vec<usize>,
    /// How many of them were asked for.
    pub next: usize,
}

impl FileLoad {
    /// The places are those of keys.
    pub open spec fn well_formed(self) -> bool {
        &&& self.ordered@.len() == self.keys@.len()
        &&& self.next <= self.missing@.len()
        &&& forall|k: int|
            0 <= k < self.missing@.len() ==> (#[trigger] self.missing@[k]) < self.keys@.len()
    }

    /// True where each file that is known has the key in whose place it stands.
    pub open spec fn answers(self) -> bool {
        forall|i: int|
            0 <= i < self.ordered@.len() && (#[trigger] self.ordered@[i]) is Some ==> key_of(
                self.by,
                self.ordered@[i]->0,
            ) == self.keys@[i]@
    }

    /// Starts to load: takes from a cache what it knows.
    pub fn start(by: LoadKey, keys: Vec<String>, cache: &Cache<FileHit>) -> (r: Self)
        requires
            cache.well_formed(),
        ensures
            r.well_formed(),
            r.by == by,
            r.keys == keys,
            r.ordered@ == known_files(cache@, text::texts(keys@)),
            r.missing@ == empty_places(r.ordered@, r.ordered@.len()),
            r.next == 0,
            well_keyed(by, cache@) ==> r.answers(),
    {
        let ghost all = known_files(cache@, text::texts(keys@));
        let mut ordered: Vec<Option<FileHit>> = Vec::new();
        let mut missing: Vec<usize> = Vec::new();
        let mut i: usize = 0;
        while i < keys.len()
            invariant
                i <= keys.len(),
                cache.well_formed(),
                all == known_files(cache@, text::texts(keys@)),
                ordered@ == all.take(i as int),
                missing@ == empty_places(all, i as nat),
                forall|k: int| 0 <= k < missing@.len() ==> (#[trigger] missing@[k]) < i,
            decreases keys.len() - i,
        {
            let hit: Option<FileHit> = match cache.get(keys[i].as_str()) {
                Some(hit) => Some(hit.clone()),
                None => None,
            };
            assert(all[i as int] == hit);
            if hit.is_none() {
                missing.push(i);
            }
            ordered.push(hit);
            assert(ordered@ =~= all.take(i + 1));
            i += 1;
        }
        assert(ordered@ =~= all);
        FileLoad { by, keys, ordered, missing, next: 0 }
    }

    /// Returns true when files are still to be asked for.
    pub fn wants_batch(&self) -> (r: bool)
        ensures
            r == (self.next < self.missing@.len()),
    {
        self.next < self.missing.len()
    }

    /// The place behind the next batch.
    fn end_of_batch(&self) -> (r: usize)
        requires
            self.well_formed(),
        ensures
            r == batch_end(self.by, self.next as nat, self.missing@.len()),
            self.next <= r <= self.missing@.len(),
    {
        let size: usize = match self.by {
            LoadKey::Title => 10,
            LoadKey::PageId => 50,
        };
        if self.missing.len() - self.next > size {
            self.next + size
        } else {
            self.missing.len()
        }
    }

    /// Builds the request for the next batch.
    pub fn batch_request(&self) -> (r: Vec<(String, String)>)
        requires
            self.well_formed(),
        ensures
            commons::pairs(r@) == commons::query_pairs().push(
                (
                    match self.by {
                        LoadKey::Title => "titles"@,
                        LoadKey::PageId => "pageids"@,
                    },
                    text::joined(
                        keys_at(
                            text::texts(self.keys@),
                            self.missing@,
                            self.next as nat,
                            batch_end(self.by, self.next as nat, self.missing@.len()),
                        ),
                        "|"@,
                    ),
                ),
            ) + commons::imageinfo_pairs(),
    {
        let end: usize = self.end_of_batch();
        let ghost all = keys_at(
            text::texts(self.keys@),
            self.missing@,
            self.next as nat,
            end as nat,
        );
        let mut batch: Vec<String> = Vec::new();
        let mut k: usize = self.next;
        assert(text::texts(batch@) =~= all.take(0));
        while k < end
            invariant
                self.well_formed(),
                self.next <= k <= end <= self.missing@.len(),
                all == keys_at(
                    text::texts(self.keys@),
                    self.missing@,
                    self.next as nat,
                    end as nat,
                ),
                text::texts(batch@) == all.take(k - self.next),
            decreases end - k,
        {
            let place: usize = self.missing[k];
            assert(self.missing@[k as int] < self.keys@.len());
            let key = self.keys[place].clone();
            proof {
                assert(all[k - self.next] == key@);
                text::lemma_texts_push(batch@, key);
                assert(all.take(k + 1 - self.next) =~= all.take(k - self.next).push(key@));
            }
            batch.push(key);
            k += 1;
        }
        assert(all.take(end - self.next) =~= all);
        let mut list = commons::begin_request();
        match self.by {
            LoadKey::Title => push_pair(&mut list, "titles", text::join(&batch, "|").as_str()),
            LoadKey::PageId => push_pair(&mut list, "pageids", text::join(&batch, "|").as_str()),
        }
        push_imageinfo(&mut list);
        list
    }

    /// Takes the files that came for the next batch.
    pub fn take_batch(&mut self, found: &Vec<FileHit>)
        requires
            old(self).well_formed(),
        ensures
            final(self).well_formed(),
            final(self).by == old(self).by,
            final(self).keys == old(self).keys,
            final(self).missing == old(self).missing,
            final(self).next == batch_end(
                old(self).by,
                old(self).next as nat,
                old(self).missing@.len(),
            ),
            final(self).ordered@ == filled(
                old(self).by,
                old(self).ordered@,
                text::texts(old(self).keys@),
                old(self).missing@,
                found@,
                old(self).next as nat,
                final(self).next as nat,
            ),
            old(self).answers() ==> final(self).answers(),
    {
        let end: usize = self.end_of_batch();
        let ghost before = *self;
        let mut k: usize = self.next;
        while k < end
            invariant
                self.well_formed(),
                before == *old(self),
                self.by == before.by,
                self.keys == before.keys,
                self.missing == before.missing,
                self.next == before.next,
                before.next <= k <= end <= self.missing@.len(),
                self.ordered@ == filled(
                    before.by,
                    before.ordered@,
                    text::texts(before.keys@),
                    before.missing@,
                    found@,
                    before.next as nat,
                    k as nat,
                ),
                before.answers() ==> self.answers(),
            decreases end - k,
        {
            let place: usize = self.missing[k];
            assert(self.missing@[k as int] < self.keys@.len());
            assert(text::texts(self.keys@)[place as int] == self.keys@[place as int]@);
            if let Some(hit) = find_keyed(self.by, found, self.keys[place].as_str()) {
                proof {
                    lemma_last_keyed(self.by, found@, self.keys@[place as int]@);
                }
                self.ordered.set(place, Some(hit));
            }
            k += 1;
        }
        self.next = end;
    }

    /// Ends the loading.
    pub fn finish(&self) -> (r: Vec<FileHit>)
        ensures
            r@ == present(self.ordered@),
    {
        let mut out: Vec<FileHit> = Vec::new();
        let mut i: usize = 0;
        assert(self.ordered@.take(0) =~= seq![]);
        while i < self.ordered.len()
            invariant
                i <= self.ordered.len(),
                out@ == present(self.ordered@.take(i as int)),
            decreases self.ordered.len() - i,
        {
            proof {
                assert(self.ordered@.take(i + 1).drop_last() =~= self.ordered@.take(i as int));
                assert(self.ordered@.take(i + 1).last() == self.ordered@[i as int]);
            }
            if let Some(hit) = &self.ordered[i] {
                out.push(hit.clone());
            }
            i += 1;
        }
        assert(self.ordered@.take(self.ordered.len() as int) =~= self.ordered@);
        out
    }
}

/// The keys at the places `missing[from..to]`.
pub open spec fn keys_at(
    keys: Seq<Seq<char>>,
    missing: Seq<usize>,
    from: nat,
    to: nat,
) -> Seq<Seq<char>> {
    Seq::new((to - from) as nat, |i: int| keys[missing[from + i] as int])
}

/// A file that is found has the key.
proof fn lemma_last_keyed(by: LoadKey, found: Seq<FileHit>, key: Seq<char>)
    ensures
        last_keyed(by, found, key) is Some ==> key_of(by, last_keyed(by, found, key)->0) == key,
    decreases found.len(),
{
    if found.len() > 0 {
        lemma_last_keyed(by, found.drop_last(), key);
    }
}

/// The keys whose places are not empty, in order.
pub open spec fn answered_keys(keys: Seq<Seq<char>>, ordered: Seq<Option<FileHit>>) -> Seq<
    Seq<char>,
>
    decreases ordered.len(),
{
    if ordered.len() == 0 {
        seq![]
    } else if ordered.last() is Some {
        answered_keys(keys, ordered.drop_last()).push(keys[ordered.len() - 1])
    } else {
        answered_keys(keys, ordered.drop_last())
    }
}

/// The keys of files.
pub open spec fn keys_of(by: LoadKey, files: Seq<FileHit>) -> Seq<Seq<char>> {
    Seq::new(files.len(), |i: int| key_of(by, files[i]))
}

/// The files that were loaded come in the order in which they were asked for: their keys are those
/// that were answered, in the order of the request.
pub proof fn law_files_come_in_order(
    by: LoadKey,
    keys: Seq<Seq<char>>,
    ordered: Seq<Option<FileHit>>,
)
    requires
        ordered.len() <= keys.len(),
        forall|i: int|
            0 <= i < ordered.len() && (#[trigger] ordered[i]) is Some ==> key_of(by, ordered[i]->0)
                == keys[i],
    ensures
        keys_of(by, present(ordered)) == answered_keys(keys, ordered),
    decreases ordered.len(),
{
    if ordered.len() > 0 {
        let head = ordered.drop_last();
        assert forall|i: int| 0 <= i < head.len() && (#[trigger] head[i]) is Some implies key_of(
            by,
            head[i]->0,
        ) == keys[i] by {
            assert(head[i] == ordered[i]);
        }
        law_files_come_in_order(by, keys, head);
        if let Some(hit) = ordered.last() {
            assert(ordered[ordered.len() - 1] == Some(hit));
            assert(keys_of(by, present(head).push(hit)) =~= keys_of(by, present(head)).push(
                key_of(by, hit),
            ));
        }
    } else {
        assert(keys_of(by, present(ordered)) =~= seq![]);
    }
}

/// Writes page ids as keys.
pub fn page_id_keys(page_ids: &Vec<u64>) -> (r: Vec<String>)
    ensures
        text::texts(r@) == Seq::new(
            page_ids@.len(),
            |i: int| numbers::numeral(page_ids@[i] as nat),
        ),
{
    let mut keys: Vec<String> = Vec::new();
    let mut i: usize = 0;
    while i < page_ids.len()
        invariant
            i <= page_ids.len(),
            keys@.len() == i,
            forall|k: int|
                0 <= k < i ==> (#[trigger] keys@[k])@ == numbers::numeral(page_ids@[k] as nat),
        decreases page_ids.len() - i,
    {
        keys.push(numbers::decimal(page_ids[i]));
        i += 1;
    }
    assert(text::texts(keys@) =~= Seq::new(
        page_ids@.len(),
        |i: int| numbers::numeral(page_ids@[i] as nat),
    ));
    keys
}

// Uploaders and members.

/// Chooses the uploader whose files are listed next, after nothing was found for a name: the user
/// that the name was resolved to, unless that is the same.
pub fn retry_uploader(user: &str, found: usize, canonical: Option<String>) -> (r: Option<String>)
    ensures
        r == (if found == 0 && canonical is Some && commons::user_name((canonical->0)@)
            != commons::user_name(user@) {
            canonical
        } else {
            None
        }),
{
    if found > 0 {
        return None;
    }
    match canonical {
        Some(name) => if same_api_username(name.as_str(), user) {
            None
        } else {
            Some(name)
        },
        None => None,
    }
}

/// The counting of a category's members, page by page.
#[derive(Debug)]
pub struct MemberCount {
    /// Number of members so far.
    pub count: u64,
    /// Where the next page begins.
    pub cmcontinue: Option<String>,
    /// True when the last page was counted.
    pub done: bool,
}

impl MemberCount {
    /// Begins to count.
    pub fn new() -> (r: Self)
        ensures
            r.count == 0,
            r.cmcontinue is None,
            !r.done,
    {
        MemberCount { count: 0, cmcontinue: None, done: false }
    }

    /// Counts a page: the number of its members, and where the next page begins.
    pub fn take_page(&mut self, members: usize, cmcontinue: Option<String>)
        requires
            old(self).count + members <= u64::MAX,
        ensures
            final(self).count == old(self).count + members,
            final(self).cmcontinue == cmcontinue,
            final(self).done == (cmcontinue is None),
    {
        self.count = self.count + members as u64;
        self.done = cmcontinue.is_none();
        self.cmcontinue = cmcontinue;
    }
}

} // verus!
