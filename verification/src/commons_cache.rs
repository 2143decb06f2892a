//! Caches with a limit on entries or bytes, and the keys under which things are kept.

use vstd::prelude::*;
use vstd::string::*;
use vstd::utf8::*;
use crate::escaping;
use crate::models::FileHit;
use crate::numbers;
use crate::ordering;
use crate::text;

verus! {

/// Maximum file metadata objects kept in RAM per cache.
pub const FILE_METADATA_CACHE_MAX_ENTRIES: usize = 10_000;

/// Maximum search/category result objects kept in RAM per cache.
pub const RESULT_CACHE_MAX_ENTRIES: usize = 1_024;

/// Directory used for original-file byte caching.
pub const FILE_DISK_CACHE_DIR: &'static str = "/tmp/telegram-wikimedia-commons-bot-file-cache";

/// Texts and the values kept under them.
pub struct Cache<V> {
    entries: Vec<(String, V)>,
}

/// The map that a list of entries makes.
pub open spec fn entry_map<V>(s: Seq<(String, V)>) -> Map<Seq<char>, V>
    decreases s.len(),
{
    if s.len() == 0 {
        Map::empty()
    } else {
        entry_map(s.drop_last()).insert(s.last().0@, s.last().1)
    }
}

/// True where no two entries have the same text.
pub open spec fn distinct_keys<V>(s: Seq<(String, V)>) -> bool {
    forall|i: int, j: int|
        0 <= i < s.len() && 0 <= j < s.len() && i != j ==> (#[trigger] s[i]).0@ != (
        #[trigger] s[j]).0@
}

proof fn lemma_entry_map<V>(s: Seq<(String, V)>)
    requires
        distinct_keys(s),
    ensures
        entry_map(s).dom().finite(),
        entry_map(s).len() == s.len(),
        forall|i: int|
            0 <= i < s.len() ==> entry_map(s).dom().contains((#[trigger] s[i]).0@) && entry_map(
                s,
            )[s[i].0@] == s[i].1,
        forall|k: Seq<char>| #[trigger]
            entry_map(s).dom().contains(k) ==> exists|i: int|
                0 <= i < s.len() && (#[trigger] s[i]).0@ == k,
    decreases s.len(),
{
    if s.len() > 0 {
        let t = s.drop_last();
        assert forall|i: int, j: int| 0 <= i < t.len() && 0 <= j < t.len() && i != j implies (
        #[trigger] t[i]).0@ != (#[trigger] t[j]).0@ by {
            assert(t[i] == s[i] && t[j] == s[j]);
        }
        lemma_entry_map(t);
        let last = s.last().0@;
        assert(!entry_map(t).dom().contains(last)) by {
            if entry_map(t).dom().contains(last) {
                let i = choose|i: int| 0 <= i < t.len() && (#[trigger] t[i]).0@ == last;
                assert(s[i].0@ == s[s.len() - 1].0@);
            }
        }
        assert forall|i: int| 0 <= i < s.len() implies entry_map(s).dom().contains(
            (#[trigger] s[i]).0@,
        ) && entry_map(s)[s[i].0@] == s[i].1 by {
            if i < t.len() {
                assert(t[i] == s[i]);
                assert(s[i].0@ != last) by {
                    assert(s[i].0@ != s[s.len() - 1].0@);
                }
            }
        }
        assert forall|k: Seq<char>| #[trigger] entry_map(s).dom().contains(k) implies exists|i: int|
            0 <= i < s.len() && (#[trigger] s[i]).0@ == k by {
            if k == last {
                assert(s[s.len() - 1].0@ == k);
            } else {
                assert(entry_map(t).dom().contains(k));
                let i = choose|i: int| 0 <= i < t.len() && (#[trigger] t[i]).0@ == k;
                assert(s[i].0@ == k);
            }
        }
    }
}

proof fn lemma_entry_removed<V>(s: Seq<(String, V)>, p: int)
    requires
        distinct_keys(s),
        0 <= p < s.len(),
    ensures
        distinct_keys(s.remove(p)),
        entry_map(s.remove(p)) == entry_map(s).remove(s[p].0@),
{
    let t = s.remove(p);
    assert forall|i: int, j: int| 0 <= i < t.len() && 0 <= j < t.len() && i != j implies (
    #[trigger] t[i]).0@ != (#[trigger] t[j]).0@ by {
        let a = if i < p {
            i
        } else {
            i + 1
        };
        let b = if j < p {
            j
        } else {
            j + 1
        };
        assert(t[i] == s[a] && t[j] == s[b]);
    }
    lemma_entry_map(s);
    lemma_entry_map(t);
    let m = entry_map(s).remove(s[p].0@);
    assert forall|k: Seq<char>| #[trigger] m.dom().contains(k) implies entry_map(t).dom().contains(
        k,
    ) && entry_map(t)[k] == m[k] by {
        let i = choose|i: int| 0 <= i < s.len() && (#[trigger] s[i]).0@ == k;
        let a = if i < p {
            i
        } else {
            i - 1
        };
        assert(t[a] == s[i]);
    }
    assert forall|k: Seq<char>| #[trigger] entry_map(t).dom().contains(k) implies m.dom().contains(
        k,
    ) by {
        let a = choose|a: int| 0 <= a < t.len() && (#[trigger] t[a]).0@ == k;
        let i = if a < p {
            a
        } else {
            a + 1
        };
        assert(t[a] == s[i]);
        assert(s[i].0@ != s[p].0@);
    }
    assert(entry_map(t) =~= m);
}

proof fn lemma_entry_added<V>(s: Seq<(String, V)>, e: (String, V))
    requires
        distinct_keys(s),
        !entry_map(s).dom().contains(e.0@),
    ensures
        distinct_keys(s.push(e)),
        entry_map(s.push(e)) == entry_map(s).insert(e.0@, e.1),
{
    lemma_entry_map(s);
    let t = s.push(e);
    assert(t.drop_last() =~= s);
    assert forall|i: int, j: int| 0 <= i < t.len() && 0 <= j < t.len() && i != j implies (
    #[trigger] t[i]).0@ != (#[trigger] t[j]).0@ by {
        if i < s.len() {
            assert(t[i] == s[i]);
        }
        if j < s.len() {
            assert(t[j] == s[j]);
        }
    }
}

impl<V> View for Cache<V> {
    type V = Map<Seq<char>, V>;

    closed spec fn view(&self) -> Map<Seq<char>, V> {
        entry_map(self.entries@)
    }
}

impl<V> Cache<V> {
    /// True of a cache that keeps one value under each text.
    pub closed spec fn well_formed(&self) -> bool {
        distinct_keys(self.entries@)
    }

    /// Makes an empty cache.
    pub fn new() -> (r: Self)
        ensures
            r.well_formed(),
            r@ == Map::<Seq<char>, V>::empty(),
    {
        Cache { entries: Vec::new() }
    }

    /// Returns the number of entries.
    pub fn len(&self) -> (r: usize)
        requires
            self.well_formed(),
        ensures
            r == self@.len(),
            self@.dom().finite(),
    {
        proof {
            lemma_entry_map(self.entries@);
        }
        self.entries.len()
    }

    /// Finds the position of an entry.
    fn find(&self, key: &str) -> (r: Option<usize>)
        requires
            self.well_formed(),
        ensures
            match r {
                Some(i) => i < self.entries@.len() && self.entries@[i as int].0@ == key@
                    && self@.dom().contains(key@) && self@[key@] == self.entries@[i as int].1,
                None => !self@.dom().contains(key@),
            },
    {
        proof {
            lemma_entry_map(self.entries@);
        }
        let mut i: usize = 0;
        while i < self.entries.len()
            invariant
                self.well_formed(),
                i <= self.entries.len(),
                forall|k: int| 0 <= k < i ==> (#[trigger] self.entries@[k]).0@ != key@,
            decreases self.entries.len() - i,
        {
            if text::same(self.entries[i].0.as_str(), key) {
                proof {
                    lemma_entry_map(self.entries@);
                    assert(self.entries@[i as int].0@ == key@);
                }
                return Some(i);
            }
            i += 1;
        }
        None
    }

    /// Returns what is kept under a text.
    pub fn get(&self, key: &str) -> (r: Option<&V>)
        requires
            self.well_formed(),
        ensures
            match r {
                Some(v) => self@.dom().contains(key@) && self@[key@] == *v,
                None => !self@.dom().contains(key@),
            },
    {
        match self.find(key) {
            Some(i) => Some(&self.entries[i].1),
            None => None,
        }
    }

    /// Takes an entry out.
    fn remove(&mut self, key: &str) -> (r: Option<V>)
        requires
            old(self).well_formed(),
        ensures
            final(self).well_formed(),
            final(self)@ == old(self)@.remove(key@),
            match r {
                Some(v) => old(self)@.dom().contains(key@) && old(self)@[key@] == v,
                None => !old(self)@.dom().contains(key@),
            },
    {
        match self.find(key) {
            Some(i) => {
                proof {
                    lemma_entry_removed(self.entries@, i as int);
                }
                let (_, v) = self.entries.remove(i);
                Some(v)
            },
            None => {
                assert(self@ =~= old(self)@.remove(key@));
                None
            },
        }
    }

    /// Keeps a value under a text.
    pub fn put(&mut self, key: String, value: V)
        requires
            old(self).well_formed(),
        ensures
            final(self).well_formed(),
            final(self)@ == old(self)@.insert(key@, value),
    {
        let ghost was = self@;
        self.remove(key.as_str());
        assert(was.remove(key@).insert(key@, value) =~= was.insert(key@, value));
        self.add(key, value);
    }

    /// Keeps a value under a text that has none yet.
    fn add(&mut self, key: String, value: V)
        requires
            old(self).well_formed(),
            !old(self)@.dom().contains(key@),
        ensures
            final(self).well_formed(),
            final(self)@ == old(self)@.insert(key@, value),
    {
        proof {
            lemma_entry_added(self.entries@, (key, value));
        }
        self.entries.push((key, value));
    }
}

/// What is left of numbers kept under texts when those below a limit are taken out.
pub open spec fn at_least(m: Map<Seq<char>, i64>, least: i64) -> Map<Seq<char>, i64> {
    Map::new(|k: Seq<char>| m.dom().contains(k) && m[k] >= least, |k: Seq<char>| m[k])
}

impl Cache<i64> {
    /// Takes out every number below a limit.
    pub fn retain_at_least(&mut self, least: i64)
        requires
            old(self).well_formed(),
        ensures
            final(self).well_formed(),
            final(self)@ == at_least(old(self)@, least),
    {
        let ghost was = self.entries@;
        let ghost m = at_least(self@, least);
        proof {
            lemma_entry_map(was);
        }
        let mut i: usize = 0;
        while i < self.entries.len()
            invariant
                i <= self.entries@.len(),
                distinct_keys(self.entries@),
                forall|k: int| 0 <= k < i ==> (#[trigger] self.entries@[k]).1 >= least,
                m == at_least(entry_map(self.entries@), least),
            decreases self.entries.len() - i,
        {
            proof {
                lemma_entry_map(self.entries@);
            }
            if self.entries[i].1 >= least {
                i += 1;
            } else {
                let ghost before = entry_map(self.entries@);
                proof {
                    lemma_entry_removed(self.entries@, i as int);
                    assert(before[self.entries@[i as int].0@] < least);
                    assert(at_least(before.remove(self.entries@[i as int].0@), least) =~= at_least(
                        before,
                        least,
                    ));
                }
                let ghost old_entries = self.entries@;
                self.entries.remove(i);
                proof {
                    assert forall|k: int| 0 <= k < i implies (#[trigger] self.entries@[k]).1
                        >= least by {
                        assert(self.entries@[k] == old_entries[k]);
                    }
                }
            }
        }
        proof {
            lemma_entry_map(self.entries@);
            assert(self@ =~= m);
        }
    }
}

/// What a cache holds after an entry was put into it while its number of entries is limited:
/// the entry, and all that it held before, but for one entry where the limit was reached.
pub open spec fn bounded_inserted<V>(
    was: Map<Seq<char>, V>,
    now: Map<Seq<char>, V>,
    key: Seq<char>,
    value: V,
    max_entries: nat,
) -> bool {
    if max_entries == 0 {
        now == was
    } else if was.dom().contains(key) || was.len() < max_entries {
        now == was.insert(key, value)
    } else {
        exists|gone: Seq<char>| #[trigger]
            was.dom().contains(gone) && now == was.remove(gone).insert(key, value)
    }
}

/// Inserts into a cache while bounding its entry count with best-effort eviction.
pub fn bounded_insert<V>(map: &mut Cache<V>, key: String, value: V, max_entries: usize)
    requires
        old(map).well_formed(),
    ensures
        final(map).well_formed(),
        bounded_inserted(old(map)@, final(map)@, key@, value, max_entries as nat),
        old(map)@.len() <= max_entries ==> final(map)@.len() <= max_entries,
{
    if max_entries == 0 {
        return;
    }
    let ghost was = map@;
    proof {
        lemma_entry_map(map.entries@);
    }
    let known: bool = map.find(key.as_str()).is_some();
    if known {
        map.remove(key.as_str());
        assert(was.remove(key@).insert(key@, value) =~= was.insert(key@, value));
    } else if map.entries.len() >= max_entries {
        proof {
            lemma_entry_removed(map.entries@, 0);
            assert(was.dom().contains(map.entries@[0].0@));
        }
        map.entries.remove(0);
    }
    map.add(key, value);
}

/// A cache that was within its limit stays within it.
pub proof fn law_bounded_insert_keeps_limit<V>(
    was: Map<Seq<char>, V>,
    now: Map<Seq<char>, V>,
    key: Seq<char>,
    value: V,
    max_entries: nat,
)
    requires
        was.dom().finite(),
        was.len() <= max_entries,
        bounded_inserted(was, now, key, value, max_entries),
    ensures
        now.len() <= max_entries,
        max_entries > 0 ==> now.dom().contains(key) && now[key] == value,
{
    if max_entries > 0 && !was.dom().contains(key) && was.len() >= max_entries {
        let gone = choose|gone: Seq<char>| #[trigger]
            was.dom().contains(gone) && now == was.remove(gone).insert(key, value);
        assert(now.dom() =~= was.dom().remove(gone).insert(key));
    } else if max_entries > 0 {
        assert(now.dom() =~= was.dom().insert(key));
    }
}

/// In-memory byte cache with a hard byte budget and best-effort eviction.
pub struct FileBytesCache {
    max_bytes: usize,
    total_bytes: usize,
    files: Cache<Vec<u8>>,
}

/// The number of bytes that files kept under texts have together.
pub open spec fn map_bytes(m: Map<Seq<char>, Vec<u8>>) -> nat
    decreases m.dom().len(),
    when m.dom().finite()
{
    if m.dom().len() == 0 {
        0
    } else {
        let k = m.dom().choose();
        map_bytes(m.remove(k)) + m[k]@.len()
    }
}

/// Taking a file out takes its bytes off the sum.
pub proof fn law_bytes_without_file(m: Map<Seq<char>, Vec<u8>>, k: Seq<char>)
    requires
        m.dom().finite(),
        m.dom().contains(k),
    ensures
        map_bytes(m) == map_bytes(m.remove(k)) + m[k]@.len(),
    decreases m.dom().len(),
{
    let c = m.dom().choose();
    if c != k {
        law_bytes_without_file(m.remove(c), k);
        law_bytes_without_file(m.remove(k), c);
        assert(m.remove(c).remove(k) =~= m.remove(k).remove(c));
    }
}

/// What may be kept of files when so many bytes are to be added within a budget: all of them where
/// they fit, and else no less than what one file more would make too much.
pub open spec fn made_room(
    files: Map<Seq<char>, Vec<u8>>,
    kept: Map<Seq<char>, Vec<u8>>,
    size: nat,
    budget: nat,
) -> bool {
    &&& kept.submap_of(files)
    &&& map_bytes(kept) + size <= budget
    &&& map_bytes(files) + size <= budget ==> kept == files
    &&& kept == files || exists|k: Seq<char>| #[trigger]
        files.dom().contains(k) && !kept.dom().contains(k) && map_bytes(kept) + files[k]@.len()
            + size > budget
}

/// The number of bytes that entries hold together.
pub open spec fn entry_bytes(s: Seq<(String, Vec<u8>)>) -> nat
    decreases s.len(),
{
    if s.len() == 0 {
        0
    } else {
        entry_bytes(s.drop_last()) + s.last().1@.len()
    }
}

proof fn lemma_bytes_removed(s: Seq<(String, Vec<u8>)>, p: int)
    requires
        0 <= p < s.len(),
    ensures
        entry_bytes(s) == entry_bytes(s.remove(p)) + s[p].1@.len(),
    decreases s.len(),
{
    if p == s.len() - 1 {
        assert(s.remove(p) =~= s.drop_last());
    } else {
        let t = s.remove(p);
        assert(t.drop_last() =~= s.drop_last().remove(p));
        assert(t.last() == s.last());
        lemma_bytes_removed(s.drop_last(), p);
    }
}

proof fn lemma_entry_bytes(s: Seq<(String, Vec<u8>)>)
    requires
        distinct_keys(s),
    ensures
        entry_bytes(s) == map_bytes(entry_map(s)),
    decreases s.len(),
{
    if s.len() > 0 {
        let t = s.drop_last();
        assert(s.remove(s.len() - 1) =~= t);
        lemma_entry_removed(s, s.len() - 1);
        lemma_entry_bytes(t);
        lemma_entry_map(s);
        law_bytes_without_file(entry_map(s), s.last().0@);
    }
}

impl FileBytesCache {
    /// The files that are kept.
    pub closed spec fn contents(&self) -> Map<Seq<char>, Vec<u8>> {
        self.files@
    }

    /// The number of bytes that the kept files have together.
    pub open spec fn used(&self) -> nat {
        map_bytes(self.contents())
    }

    /// The budget.
    pub closed spec fn budget(&self) -> nat {
        self.max_bytes as nat
    }

    /// True of a cache that counts its bytes rightly and keeps to its budget.
    pub closed spec fn well_formed(&self) -> bool {
        &&& self.files.well_formed()
        &&& self.total_bytes == entry_bytes(self.files.entries@)
        &&& self.total_bytes <= self.max_bytes
    }

    /// A cache keeps to its budget.
    pub proof fn law_within_budget(&self)
        requires
            self.well_formed(),
        ensures
            self.used() <= self.budget(),
    {
        lemma_entry_bytes(self.files.entries@);
    }

    /// Creates a byte cache with a hard maximum size.
    pub fn new(max_bytes: usize) -> (r: Self)
        ensures
            r.well_formed(),
            r.budget() == max_bytes,
            r.contents() == Map::<Seq<char>, Vec<u8>>::empty(),
    {
        FileBytesCache { max_bytes, total_bytes: 0, files: Cache { entries: Vec::new() } }
    }

    /// Returns cached bytes by key.
    pub fn get(&self, key: &str) -> (r: Option<&Vec<u8>>)
        requires
            self.well_formed(),
        ensures
            match r {
                Some(v) => self.contents().dom().contains(key@) && self.contents()[key@] == *v,
                None => !self.contents().dom().contains(key@),
            },
    {
        self.files.get(key)
    }

    /// Returns the number of cached files.
    pub fn entries(&self) -> (r: usize)
        requires
            self.well_formed(),
        ensures
            r == self.contents().len(),
    {
        self.files.len()
    }

    /// Returns the number of cached bytes.
    pub fn total_bytes(&self) -> (r: usize)
        requires
            self.well_formed(),
        ensures
            r == self.used(),
    {
        proof {
            lemma_entry_bytes(self.files.entries@);
        }
        self.total_bytes
    }

    /// Returns the budget in bytes.
    pub fn max_bytes(&self) -> (r: usize)
        ensures
            r == self.budget(),
    {
        self.max_bytes
    }

    /// Inserts bytes when the object can fit, evicting old entries if needed.
    pub fn insert(&mut self, key: String, bytes: Vec<u8>) -> (r: bool)
        requires
            old(self).well_formed(),
        ensures
            final(self).well_formed(),
            final(self).budget() == old(self).budget(),
            r == (0 < old(self).budget() && bytes@.len() <= old(self).budget()),
            !r ==> *final(self) == *old(self),
            r ==> final(self).contents().dom().contains(key@) && final(self).contents()[key@]
                == bytes,
            r ==> made_room(
                old(self).contents().remove(key@),
                final(self).contents().remove(key@),
                bytes@.len(),
                old(self).budget(),
            ),
    {
        let size: usize = bytes.len();
        if self.max_bytes == 0 || size > self.max_bytes {
            return false;
        }
        let ghost was = self.files@;
        let ghost rest = was.remove(key@);
        let ghost budget = self.max_bytes as nat;
        proof {
            lemma_entry_map(self.files.entries@);
        }
        if let Some(i) = self.files.find(key.as_str()) {
            proof {
                lemma_entry_removed(self.files.entries@, i as int);
                lemma_bytes_removed(self.files.entries@, i as int);
            }
            let (_, existing) = self.files.entries.remove(i);
            self.total_bytes = self.total_bytes - existing.len();
        }
        assert(self.files@ =~= rest);
        proof {
            lemma_entry_bytes(self.files.entries@);
        }
        while self.total_bytes > self.max_bytes - size
            invariant
                self.files.well_formed(),
                self.total_bytes == entry_bytes(self.files.entries@),
                self.total_bytes <= self.max_bytes,
                self.max_bytes == old(self).max_bytes,
                size <= self.max_bytes,
                size == bytes@.len(),
                budget == self.max_bytes,
                rest == was.remove(key@),
                !self.files@.dom().contains(key@),
                self.files@.submap_of(rest),
                map_bytes(self.files@) <= map_bytes(rest),
                map_bytes(rest) + size <= budget ==> self.files@ == rest,
                self.files@ == rest || exists|k: Seq<char>| #[trigger]
                    rest.dom().contains(k) && !self.files@.dom().contains(k) && map_bytes(
                        self.files@,
                    ) + rest[k]@.len() + size > budget,
            decreases self.files.entries@.len(),
        {
            proof {
                if self.files.entries@.len() == 0 {
                    assert(entry_bytes(self.files.entries@) == 0);
                }
                lemma_entry_map(self.files.entries@);
                lemma_entry_bytes(self.files.entries@);
                lemma_entry_removed(self.files.entries@, 0);
                lemma_bytes_removed(self.files.entries@, 0);
                law_bytes_without_file(self.files@, self.files.entries@[0].0@);
                assert(rest.dom().contains(self.files.entries@[0].0@));
                assert(rest[self.files.entries@[0].0@] == self.files.entries@[0].1);
            }
            let (_, existing) = self.files.entries.remove(0);
            self.total_bytes = self.total_bytes - existing.len();
        }
        proof {
            lemma_entry_bytes(self.files.entries@);
        }
        self.total_bytes = self.total_bytes + size;
        let ghost entries = self.files.entries@;
        let ghost kept = self.files@;
        proof {
            assert(entries.push((key, bytes)).drop_last() =~= entries);
            lemma_entry_added(entries, (key, bytes));
            assert(kept.insert(key@, bytes).remove(key@) =~= kept);
        }
        self.files.entries.push((key, bytes));
        true
    }
}

/// The number of megabytes that settings allow for files in memory.
pub open spec fn cache_megabytes(
    setting: Option<Seq<char>>,
    memory: Option<Seq<char>>,
    max: nat,
) -> nat {
    let chosen = match setting {
        Some(s) => numbers::unsigned_value(s, max),
        None => None,
    };
    let memory_mb = match memory {
        Some(s) => numbers::unsigned_value(s, max),
        None => None,
    };
    match chosen {
        Some(n) => n,
        None => match memory_mb {
            Some(m) => if m / 3 > 64 {
                m / 3
            } else {
                64
            },
            None => 512,
        },
    }
}

/// The number of bytes in a number of megabytes, up to a maximum.
pub open spec fn megabytes(mb: nat, max: nat) -> nat {
    if mb * (1024 * 1024) > max {
        max
    } else {
        mb * (1024 * 1024)
    }
}

/// Returns the RAM byte-cache budget from the settings `FILE_BYTES_CACHE_MAX_MB` and
/// `AWS_LAMBDA_FUNCTION_MEMORY_SIZE`.
pub fn file_bytes_cache_max_bytes(setting: Option<&str>, memory: Option<&str>) -> (r: usize)
    ensures
        r == megabytes(
            cache_megabytes(text::opt_slice(setting), text::opt_slice(memory), usize::MAX as nat),
            usize::MAX as nat,
        ),
{
    let chosen: Option<u64> = match setting {
        Some(s) => numbers::parse_unsigned(s, usize::MAX as u64),
        None => None,
    };
    let memory_mb: Option<u64> = match memory {
        Some(s) => numbers::parse_unsigned(s, usize::MAX as u64),
        None => None,
    };
    let mb: usize = match chosen {
        Some(n) => n as usize,
        None => match memory_mb {
            Some(m) => if m / 3 > 64 {
                (m / 3) as usize
            } else {
                64
            },
            None => 512,
        },
    };
    if mb > usize::MAX / (1024 * 1024) {
        usize::MAX
    } else {
        mb * (1024 * 1024)
    }
}

/// Returns the disk byte-cache budget from the setting `FILE_DISK_CACHE_MAX_MB`.
pub fn file_disk_cache_max_bytes(setting: Option<&str>) -> (r: u64)
    ensures
        r == megabytes(
            match setting {
                Some(s) => match numbers::unsigned_value(s@, u64::MAX as nat) {
                    Some(n) => n,
                    None => 4096,
                },
                None => 4096,
            },
            u64::MAX as nat,
        ),
{
    let mb: u64 = match setting {
        Some(s) => match numbers::parse_unsigned(s, u64::MAX) {
            Some(n) => n,
            None => 4096,
        },
        None => 4096,
    };
    if mb > u64::MAX / (1024 * 1024) {
        u64::MAX
    } else {
        mb * (1024 * 1024)
    }
}

/// The key under which a file's bytes are kept.
pub open spec fn bytes_key(file: FileHit, url: Seq<char>) -> Seq<char> {
    if file.sha1 is Some && (file.sha1->0)@.len() > 0 {
        "sha1:"@ + (file.sha1->0)@
    } else if file.page_id != 0 {
        "page:"@ + numbers::numeral(file.page_id as nat) + ":"@ + url
    } else {
        "url:"@ + url
    }
}

/// Builds a cache key for original file bytes.
pub fn file_bytes_cache_key(file: &FileHit, url: &str) -> (r: String)
    ensures
        r@ == bytes_key(*file, url@),
{
    if let Some(sha1) = &file.sha1 {
        if sha1.as_str().unicode_len() > 0 {
            return "sha1:".to_owned().concat(sha1.as_str());
        }
    }
    if file.page_id != 0 {
        "page:".to_owned().concat(numbers::decimal(file.page_id).as_str()).concat(":").concat(url)
    } else {
        "url:".to_owned().concat(url)
    }
}

/// Builds a safe disk path for a cache key.
pub fn disk_cache_path(key: &str) -> (r: String)
    ensures
        r@ == FILE_DISK_CACHE_DIR@ + "/"@ + escaping::hex_text(
            escaping::sha256(encode_utf8(key@)),
        ),
{
    let digest = escaping::sha256_digest(key.as_bytes());
    FILE_DISK_CACHE_DIR.to_owned().concat("/").concat(escaping::hex_encode(&digest).as_str())
}

/// One file of the disk cache.
#[derive(Debug)]
pub struct DiskCacheEntry {
    /// Name of the file.
    pub path: String,
    /// Size in bytes.
    pub size: u64,
    /// Time of the last change, in nanoseconds.
    pub modified: u64,
}

impl Clone for DiskCacheEntry {
    fn clone(&self) -> (r: Self)
        ensures
            r == *self,
    {
        DiskCacheEntry { path: self.path.clone(), size: self.size, modified: self.modified }
    }
}

/// The age by which disk cache files are ordered.
pub open spec fn by_age() -> spec_fn(DiskCacheEntry) -> int {
    |e: DiskCacheEntry| e.modified as int
}

/// Orders disk cache files from the oldest to the newest.
pub fn oldest_first(entries: &Vec<DiskCacheEntry>) -> (r: Vec<DiskCacheEntry>)
    ensures
        r@ == ordering::sorted_by(entries@, by_age()),
{
    let mut out: Vec<DiskCacheEntry> = Vec::new();
    let mut i: usize = 0;
    assert(entries@.take(0) =~= seq![]);
    while i < entries.len()
        invariant
            i <= entries.len(),
            out@ == ordering::sorted_by(entries@.take(i as int), by_age()),
        decreases entries.len() - i,
    {
        let ghost x = entries@[i as int];
        let ghost k = x.modified as int;
        let mut p: usize = 0;
        while p < out.len() && out[p].modified <= entries[i].modified
            invariant
                i < entries.len(),
                k == entries@[i as int].modified,
                p <= out.len(),
                ordering::first_greater(out@, by_age(), k, 0) == ordering::first_greater(
                    out@,
                    by_age(),
                    k,
                    p as int,
                ),
            decreases out.len() - p,
        {
            p += 1;
        }
        proof {
            assert(entries@.take(i + 1).drop_last() =~= entries@.take(i as int));
            assert(entries@.take(i + 1).last() == x);
        }
        out.insert(p, entries[i].clone());
        i += 1;
    }
    assert(entries@.take(entries.len() as int) =~= entries@);
    out
}

/// Returns true when an object does not fit beside what a disk cache holds.
pub fn disk_cache_overflows(total: u64, incoming_bytes: u64, max_bytes: u64) -> (r: bool)
    ensures
        r == (total + incoming_bytes > max_bytes && max_bytes < u64::MAX),
{
    if total > u64::MAX - incoming_bytes {
        max_bytes < u64::MAX
    } else {
        total + incoming_bytes > max_bytes
    }
}

/// Returns the size of a disk cache after an attempt to remove a file of it.
pub fn disk_cache_total_after(total: u64, size: u64, removed: bool) -> (r: u64)
    ensures
        r == (if !removed {
            total as int
        } else if size > total {
            0
        } else {
            total - size
        }),
{
    if !removed {
        total
    } else if size > total {
        0
    } else {
        total - size
    }
}

/// A snapshot of Commons cache usage.
#[derive(Clone, Copy, Debug, Default, PartialEq, Eq, Structural)]
pub struct CommonsCacheStats {
    /// File metadata entries cached by page id.
    pub file_by_page_id_entries: usize,
    /// File metadata entries cached by title.
    pub file_by_title_entries: usize,
    /// File-search result entries cached in RAM.
    pub file_search_entries: usize,
    /// Category-search result entries cached in RAM.
    pub category_search_entries: usize,
    /// Category info entries cached in RAM.
    pub category_info_entries: usize,
    /// Category file-count entries cached in RAM.
    pub category_file_count_entries: usize,
    /// Page-title lookup entries cached in RAM.
    pub page_title_entries: usize,
    /// Uploader canonical-name entries cached in RAM.
    pub uploader_name_entries: usize,
    /// SSM auth-cookie entries cached in RAM.
    pub auth_cookie_entries: usize,
    /// Original file byte objects cached in RAM.
    pub ram_file_bytes_entries: usize,
    /// Original file bytes cached in RAM.
    pub ram_file_bytes_bytes: usize,
    /// Maximum configured RAM byte-cache size.
    pub ram_file_bytes_max_bytes: usize,
    /// Original file byte objects cached under `/tmp`.
    pub tmp_file_bytes_entries: usize,
    /// Original file bytes cached under `/tmp`.
    pub tmp_file_bytes_bytes: u64,
    /// Maximum configured `/tmp` byte-cache size.
    pub tmp_file_bytes_max_bytes: u64,
}

impl CommonsCacheStats {
    /// The number of RAM cache entries that hold no file bytes.
    pub open spec fn metadata_entries(self) -> int {
        self.file_by_page_id_entries + self.file_by_title_entries + self.file_search_entries
            + self.category_search_entries + self.category_info_entries
            + self.category_file_count_entries + self.page_title_entries
            + self.uploader_name_entries + self.auth_cookie_entries
    }

    /// Returns the total number of non-byte RAM cache entries.
    pub fn ram_metadata_entries(&self) -> (r: usize)
        requires
            self.metadata_entries() <= usize::MAX,
        ensures
            r == self.metadata_entries(),
    {
        self.file_by_page_id_entries + self.file_by_title_entries + self.file_search_entries
            + self.category_search_entries + self.category_info_entries
            + self.category_file_count_entries + self.page_title_entries
            + self.uploader_name_entries + self.auth_cookie_entries
    }
}

} // verus!
