//! Stable sorting by a number or a text, and keeping the items of a list that pass a test.

use vstd::prelude::*;
use crate::text;

verus! {

/// The items of a list that pass a test, in order.
pub open spec fn kept<T>(s: Seq<T>, p: spec_fn(T) -> bool) -> Seq<T>
    decreases s.len(),
{
    if s.len() == 0 {
        s
    } else if p(s.last()) {
        kept(s.drop_last(), p).push(s.last())
    } else {
        kept(s.drop_last(), p)
    }
}

/// What is kept passes the test and stood in the list, and nothing else is left out.
pub proof fn law_kept<T>(s: Seq<T>, p: spec_fn(T) -> bool)
    ensures
        kept(s, p).len() <= s.len(),
        forall|i: int| 0 <= i < kept(s, p).len() ==> p(#[trigger] kept(s, p)[i]) && s.contains(
            kept(s, p)[i],
        ),
        forall|i: int| 0 <= i < s.len() && p(#[trigger] s[i]) ==> kept(s, p).contains(s[i]),
    decreases s.len(),
{
    if s.len() > 0 {
        let t = s.drop_last();
        law_kept(t, p);
        let k = kept(s, p);
        let l = kept(t, p);
        assert forall|i: int| 0 <= i < k.len() implies p(#[trigger] k[i]) && s.contains(k[i]) by {
            if i < l.len() {
                assert(k[i] == l[i]);
                let j = choose|j: int| 0 <= j < t.len() && t[j] == l[i];
                assert(s[j] == k[i]);
            } else {
                assert(s[s.len() - 1] == k[i]);
            }
        }
        assert forall|i: int| 0 <= i < s.len() && p(#[trigger] s[i]) implies k.contains(s[i]) by {
            if i < t.len() {
                assert(t[i] == s[i]);
                let j = choose|j: int| 0 <= j < l.len() && l[j] == t[i];
                assert(k[j] == s[i]);
            } else {
                assert(k[k.len() - 1] == s[i]);
            }
        }
    }
}

/// The first position from `i` on whose item has a greater key, or the length.
pub open spec fn first_greater<T>(s: Seq<T>, key: spec_fn(T) -> int, k: int, i: int) -> int
    decreases s.len() - i,
{
    if i >= s.len() {
        s.len() as int
    } else if key(s[i]) > k {
        i
    } else {
        first_greater(s, key, k, i + 1)
    }
}

/// A list with one more item, put behind the items whose key is not greater.
pub open spec fn placed<T>(s: Seq<T>, key: spec_fn(T) -> int, x: T) -> Seq<T> {
    s.insert(first_greater(s, key, key(x), 0), x)
}

/// A list in the order of a key. Items with the same key keep their order.
pub open spec fn sorted_by<T>(s: Seq<T>, key: spec_fn(T) -> int) -> Seq<T>
    decreases s.len(),
{
    if s.len() == 0 {
        s
    } else {
        placed(sorted_by(s.drop_last(), key), key, s.last())
    }
}

/// True where no item has a smaller key than one before it.
pub open spec fn in_order<T>(s: Seq<T>, key: spec_fn(T) -> int) -> bool {
    forall|i: int, j: int| 0 <= i < j < s.len() ==> key(#[trigger] s[i]) <= key(#[trigger] s[j])
}

/// The position found is in the list, and the items before it have no greater key.
pub proof fn lemma_first_greater<T>(s: Seq<T>, key: spec_fn(T) -> int, k: int, i: int)
    requires
        0 <= i <= s.len(),
    ensures
        i <= first_greater(s, key, k, i) <= s.len(),
        forall|j: int| i <= j < first_greater(s, key, k, i) ==> key(#[trigger] s[j]) <= k,
        first_greater(s, key, k, i) < s.len() ==> key(s[first_greater(s, key, k, i)]) > k,
    decreases s.len() - i,
{
    if i < s.len() && key(s[i]) <= k {
        lemma_first_greater(s, key, k, i + 1);
    }
}

/// Sorting gives a list in order that holds the same items as often.
pub proof fn law_sorted_by<T>(s: Seq<T>, key: spec_fn(T) -> int)
    ensures
        in_order(sorted_by(s, key), key),
        sorted_by(s, key).to_multiset() == s.to_multiset(),
        sorted_by(s, key).len() == s.len(),
    decreases s.len(),
{
    if s.len() > 0 {
        let head = sorted_by(s.drop_last(), key);
        let x = s.last();
        law_sorted_by(s.drop_last(), key);
        let p = first_greater(head, key, key(x), 0);
        lemma_first_greater(head, key, key(x), 0);
        let r = placed(head, key, x);
        assert forall|i: int, j: int| 0 <= i < j < r.len() implies key(#[trigger] r[i]) <= key(
            #[trigger] r[j],
        ) by {
            let a = if i < p {
                i
            } else {
                i - 1
            };
            let b = if j < p {
                j
            } else {
                j - 1
            };
            if i != p {
                assert(r[i] == head[a]);
            }
            if j != p {
                assert(r[j] == head[b]);
            }
            if i == p && p < head.len() {
                assert(key(head[p]) <= key(head[b]));
            }
            if j == p {
                assert(key(head[a]) <= key(x));
            }
        }
        broadcast use vstd::seq_lib::group_to_multiset_ensures;

        assert(s =~= s.drop_last().push(x));
        assert(s.to_multiset() =~= s.drop_last().to_multiset().insert(x));
        assert(r.remove(p) =~= head);
        assert(r[p] == x);
        assert(r.contains(x));
        assert(r.to_multiset().count(x) > 0);
        assert(r.to_multiset() =~= head.to_multiset().insert(x));
    }
}

/// The first position from `i` on whose item has a text that comes after a given one, or the
/// length.
pub open spec fn first_after<T>(
    s: Seq<T>,
    key: spec_fn(T) -> Seq<char>,
    k: Seq<char>,
    i: int,
) -> int
    decreases s.len() - i,
{
    if i >= s.len() {
        s.len() as int
    } else if text::precedes(k, key(s[i])) {
        i
    } else {
        first_after(s, key, k, i + 1)
    }
}

/// A list in the order of a text. Items with the same text keep their order.
pub open spec fn sorted_by_text<T>(s: Seq<T>, key: spec_fn(T) -> Seq<char>) -> Seq<T>
    decreases s.len(),
{
    if s.len() == 0 {
        s
    } else {
        let head = sorted_by_text(s.drop_last(), key);
        head.insert(first_after(head, key, key(s.last()), 0), s.last())
    }
}

/// The position found is in the list, and no item before it has a text that comes after.
pub proof fn lemma_first_after<T>(s: Seq<T>, key: spec_fn(T) -> Seq<char>, k: Seq<char>, i: int)
    requires
        0 <= i <= s.len(),
    ensures
        i <= first_after(s, key, k, i) <= s.len(),
        forall|j: int|
            i <= j < first_after(s, key, k, i) ==> !text::precedes(k, key(#[trigger] s[j])),
        first_after(s, key, k, i) < s.len() ==> text::precedes(
            k,
            key(s[first_after(s, key, k, i)]),
        ),
    decreases s.len() - i,
{
    if i < s.len() && !text::precedes(k, key(s[i])) {
        lemma_first_after(s, key, k, i + 1);
    }
}

/// True where no item's text comes before that of an item before it.
pub open spec fn in_text_order<T>(s: Seq<T>, key: spec_fn(T) -> Seq<char>) -> bool {
    forall|i: int, j: int|
        0 <= i < j < s.len() ==> !text::precedes(key(#[trigger] s[j]), key(#[trigger] s[i]))
}

/// Sorting by a text gives a list in order that holds the same items as often.
pub proof fn law_sorted_by_text<T>(s: Seq<T>, key: spec_fn(T) -> Seq<char>)
    ensures
        in_text_order(sorted_by_text(s, key), key),
        sorted_by_text(s, key).to_multiset() == s.to_multiset(),
        sorted_by_text(s, key).len() == s.len(),
    decreases s.len(),
{
    if s.len() > 0 {
        let head = sorted_by_text(s.drop_last(), key);
        let x = s.last();
        law_sorted_by_text(s.drop_last(), key);
        let p = first_after(head, key, key(x), 0);
        lemma_first_after(head, key, key(x), 0);
        let r = sorted_by_text(s, key);
        assert forall|i: int, j: int| 0 <= i < j < r.len() implies !text::precedes(
            key(#[trigger] r[j]),
            key(#[trigger] r[i]),
        ) by {
            let a = if i < p {
                i
            } else {
                i - 1
            };
            let b = if j < p {
                j
            } else {
                j - 1
            };
            if i != p {
                assert(r[i] == head[a]);
            }
            if j != p {
                assert(r[j] == head[b]);
            }
            if i == p {
                text::lemma_precedes_total(key(x), key(head[p]));
                text::lemma_precedes_total(key(x), key(head[b]));
                if text::precedes(key(head[b]), key(x)) {
                    text::lemma_precedes_transitive(key(head[b]), key(x), key(head[p]));
                    if b > p {
                        assert(!text::precedes(key(head[b]), key(head[p])));
                    }
                    text::lemma_precedes_total(key(head[b]), key(head[p]));
                }
            }
            if j == p {
                assert(!text::precedes(key(x), key(head[a])));
            }
        }
        broadcast use vstd::seq_lib::group_to_multiset_ensures;

        assert(s =~= s.drop_last().push(x));
        assert(s.to_multiset() =~= s.drop_last().to_multiset().insert(x));
        assert(r.remove(p) =~= head);
        assert(r[p] == x);
        assert(r.contains(x));
        assert(r.to_multiset().count(x) > 0);
        assert(r.to_multiset() =~= head.to_multiset().insert(x));
    }
}

} // verus!
