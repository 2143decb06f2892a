//! Laws on taking texts apart and putting them together.

use vstd::prelude::*;
use crate::text;

verus! {

/// A text is cut at the first occurrence of a character: what stands before it comes first, what
/// stands behind it second. Without the character there is no cut.
pub proof fn law_cut_first(a: Seq<char>, x: char, b: Seq<char>)
    requires
        !a.contains(x),
    ensures
        text::cut_first(a + seq![x] + b, x) == Some((a, b)),
        text::cut_first(a, x) is None,
{
    let s = a + seq![x] + b;
    text::lemma_position(s, x, 0);
    text::lemma_position(a, x, 0);
    let i = text::position(s, x, 0);
    let k = text::position(a, x, 0);
    assert(s[a.len() as int] == x);
    if i < a.len() {
        assert(a[i] == s[i] && a.contains(a[i]));
    }
    if k < a.len() {
        assert(a.contains(a[k]));
    }
    assert(s.take(i) =~= a);
    assert(s.skip(i + 1) =~= b);
}

/// The last occurrence of a character, where all behind it are others.
proof fn lemma_last_position(s: Seq<char>, x: char, at: int, to: int)
    requires
        -1 <= at < to <= s.len() || at == to - 1 == -1,
        at >= 0 ==> s[at] == x,
        forall|k: int| at < k < to ==> s[k] != x,
    ensures
        text::last_position(s, x, to) == at,
    decreases to,
{
    if to > 0 && s[to - 1] != x {
        lemma_last_position(s, x, at, to - 1);
    }
}

/// A text is cut at the last occurrence of a character. Without the character there is no cut.
pub proof fn law_cut_last(a: Seq<char>, x: char, b: Seq<char>)
    requires
        !b.contains(x),
    ensures
        text::cut_last(a + seq![x] + b, x) == Some((a, b)),
        text::cut_last(b, x) is None,
{
    let s = a + seq![x] + b;
    let n = a.len() as int;
    assert forall|k: int| n < k < s.len() implies s[k] != x by {
        assert(s[k] == b[k - n - 1]);
        assert(b.contains(b[k - n - 1]));
    }
    assert(s[n] == x);
    lemma_last_position(s, x, n, s.len() as int);
    assert forall|k: int| -1 < k < b.len() implies b[k] != x by {
        assert(b.contains(b[k]));
    }
    lemma_last_position(b, x, -1, b.len() as int);
    assert(s.take(n) =~= a);
    assert(s.skip(n + 1) =~= b);
}

/// The number of characters of some texts together.
pub open spec fn total_length(list: Seq<Seq<char>>) -> nat
    decreases list.len(),
{
    if list.len() == 0 {
        0
    } else {
        total_length(list.drop_last()) + list.last().len()
    }
}

/// Joining two lists one after the other puts the separator between what each gives.
pub proof fn law_joined_in_order(a: Seq<Seq<char>>, b: Seq<Seq<char>>, sep: Seq<char>)
    requires
        a.len() > 0,
        b.len() > 0,
    ensures
        text::joined(a + b, sep) == text::joined(a, sep) + sep + text::joined(b, sep),
    decreases b.len(),
{
    let all = a + b;
    assert(all.drop_last() =~= a + b.drop_last());
    assert(all.last() == b.last());
    if b.len() == 1 {
        assert(a + b.drop_last() =~= a);
        assert(text::joined(all, sep) =~= text::joined(a, sep) + sep + b[0]);
    } else {
        law_joined_in_order(a, b.drop_last(), sep);
        assert(text::joined(all, sep) =~= text::joined(a, sep) + sep + text::joined(b, sep));
    }
}

/// One text joined is that text, and none is the empty text.
pub proof fn law_joined_few(x: Seq<char>, sep: Seq<char>)
    ensures
        text::joined(seq![x], sep) == x,
        text::joined(Seq::<Seq<char>>::empty(), sep) == Seq::<char>::empty(),
{
}

/// Joined texts are as long as all of them and a separator between neighbours.
pub proof fn law_joined_length(list: Seq<Seq<char>>, sep: Seq<char>)
    requires
        list.len() > 0,
    ensures
        text::joined(list, sep).len() == total_length(list) + (list.len() - 1) * sep.len(),
    decreases list.len(),
{
    if list.len() > 1 {
        law_joined_length(list.drop_last(), sep);
        assert((list.len() - 1) * sep.len() == (list.len() - 2) * sep.len() + sep.len())
            by (nonlinear_arith)
            requires
                list.len() > 1,
        ;
    } else {
        assert(total_length(list.drop_last()) == 0);
        assert(0 * sep.len() == 0) by (nonlinear_arith);
    }
}

/// Each text of a list stands whole in what joining gives, with the texts before it in front of it
/// and those after it behind it.
pub proof fn law_joined_holds_each(list: Seq<Seq<char>>, sep: Seq<char>, k: int)
    requires
        0 <= k < list.len(),
    ensures
        ({
            let front = if k == 0 {
                Seq::<char>::empty()
            } else {
                text::joined(list.take(k), sep) + sep
            };
            let back = if k + 1 == list.len() {
                Seq::<char>::empty()
            } else {
                sep + text::joined(list.skip(k + 1), sep)
            };
            text::joined(list, sep) == front + list[k] + back
        }),
{
    let head = list.take(k + 1);
    assert(head.drop_last() =~= list.take(k));
    assert(head.last() == list[k]);
    let front = if k == 0 {
        Seq::<char>::empty()
    } else {
        text::joined(list.take(k), sep) + sep
    };
    if k == 0 {
        assert(head =~= seq![list[0]]);
    }
    assert(text::joined(head, sep) =~= front + list[k]);
    if k + 1 < list.len() {
        assert(list =~= head + list.skip(k + 1));
        law_joined_in_order(head, list.skip(k + 1), sep);
        assert(text::joined(list, sep) =~= front + list[k] + (sep + text::joined(
            list.skip(k + 1),
            sep,
        )));
    } else {
        assert(head =~= list);
        assert(text::joined(list, sep) =~= front + list[k] + Seq::<char>::empty());
    }
}

/// The parts of a text, joined by the character that parts them, give the text back, and none of
/// them holds the character.
pub proof fn law_parts_join(s: Seq<char>, x: char)
    ensures
        text::parts(s, x).len() > 0,
        text::joined(text::parts(s, x), seq![x]) == s,
        forall|i: int| 0 <= i < text::parts(s, x).len() ==> !(#[trigger] text::parts(s, x)[i]).contains(x),
    decreases s.len(),
{
    if s.contains(x) {
        text::lemma_position(s, x, 0);
        let i = text::position(s, x, 0);
        let w = choose|w: int| 0 <= w < s.len() && s[w] == x;
        assert(i <= w);
        let a = s.take(i);
        let b = s.skip(i + 1);
        assert(s =~= a + seq![x] + b);
        assert(!a.contains(x)) by {
            if a.contains(x) {
                let k = choose|k: int| 0 <= k < a.len() && a[k] == x;
                assert(s[k] == x);
            }
        }
        text::lemma_first_part(a, x, b);
        law_parts_join(b, x);
        law_joined_in_order(seq![a], text::parts(b, x), seq![x]);
    } else {
        text::lemma_one_part(s, x);
    }
}

/// True where all characters of a text are in a class.
pub open spec fn all_in(s: Seq<char>, p: spec_fn(char) -> bool) -> bool {
    forall|i: int| 0 <= i < s.len() ==> p(#[trigger] s[i])
}

/// What begins with characters of a class and goes on with another loses just these.
pub proof fn law_leading_dropped(a: Seq<char>, b: Seq<char>, p: spec_fn(char) -> bool)
    requires
        all_in(a, p),
        b.len() == 0 || !p(b[0]),
    ensures
        text::drop_leading(a + b, p) == b,
    decreases a.len(),
{
    let s = a + b;
    if a.len() > 0 {
        assert(s[0] == a[0]);
        assert(s.skip(1) =~= a.skip(1) + b);
        law_leading_dropped(a.skip(1), b, p);
    } else {
        assert(s =~= b);
    }
}

/// What ends with characters of a class after another loses just these.
pub proof fn law_trailing_dropped(a: Seq<char>, b: Seq<char>, p: spec_fn(char) -> bool)
    requires
        all_in(b, p),
        a.len() == 0 || !p(a.last()),
    ensures
        text::drop_trailing(a + b, p) == a,
    decreases b.len(),
{
    let s = a + b;
    if b.len() > 0 {
        assert(s.last() == b.last());
        assert(s.drop_last() =~= a + b.drop_last());
        law_trailing_dropped(a, b.drop_last(), p);
    } else {
        assert(s =~= a);
    }
}

/// Trimming takes the space around a text, and nothing of the text.
pub proof fn law_trimmed(a: Seq<char>, s: Seq<char>, b: Seq<char>)
    requires
        all_in(a, text::white_class()),
        all_in(b, text::white_class()),
        s.len() == 0 || !text::is_white(s[0]) && !text::is_white(s.last()),
    ensures
        text::trimmed(a + s + b) == s,
{
    let p = text::white_class();
    if s.len() > 0 {
        assert(a + s + b =~= a + (s + b));
        assert((s + b)[0] == s[0]);
        law_leading_dropped(a, s + b, p);
        law_trailing_dropped(s, b, p);
    } else {
        assert(a + s + b =~= (a + b) + Seq::<char>::empty());
        assert(all_in(a + b, p)) by {
            assert forall|i: int| 0 <= i < (a + b).len() implies p(#[trigger] (a + b)[i]) by {
                if i < a.len() {
                    assert((a + b)[i] == a[i]);
                } else {
                    assert((a + b)[i] == b[i - a.len()]);
                }
            }
        }
        law_leading_dropped(a + b, Seq::<char>::empty(), p);
        assert(s =~= Seq::<char>::empty());
    }
}

/// The space between words: blanks, tabs and line ends are space; letters, digits and the signs of
/// the search language are not.
pub proof fn law_space(c: char)
    ensures
        c == ' ' || c == '\t' || c == '\n' || c == '\r' ==> text::is_white(c),
        'a' <= c <= 'z' || 'A' <= c <= 'Z' || '0' <= c <= '9' || c == ':' || c == '-' || c == '.'
            || c == '/' || c == '_' || c == '"' || c == '\'' || c == '<' || c == '>' || c == '|'
            ==> !text::is_white(c),
{
}

/// Lower case keeps every character but the capital letters, which become the small ones.
pub proof fn law_lowered(s: Seq<char>, i: int)
    requires
        0 <= i < s.len(),
    ensures
        text::lowered(s).len() == s.len(),
        'A' <= s[i] <= 'Z' ==> text::lowered(s)[i] as int == s[i] as int - 'A' as int + 'a' as int,
        !('A' <= s[i] <= 'Z') ==> text::lowered(s)[i] == s[i],
{
}

/// Texts that differ at most in the case of ASCII letters have the same lower case.
pub proof fn law_lowered_twice(s: Seq<char>)
    ensures
        text::lowered(text::lowered(s)) == text::lowered(s),
{
    assert(text::lowered(text::lowered(s)) =~= text::lowered(s));
}

/// A text begins and ends with another exactly where it is made so.
pub proof fn law_begins_and_finishes(s: Seq<char>, p: Seq<char>, rest: Seq<char>)
    ensures
        text::begins(p + rest, p),
        text::finishes(rest + p, p),
        text::begins(s, p) ==> s == p + s.skip(p.len() as int),
        text::finishes(s, p) ==> s == s.take(s.len() - p.len()) + p,
{
    assert((p + rest).take(p.len() as int) =~= p);
    assert((rest + p).skip(rest.len() as int) =~= p);
    if text::begins(s, p) {
        assert(s =~= s.take(p.len() as int) + s.skip(p.len() as int));
    }
    if text::finishes(s, p) {
        assert(s =~= s.take(s.len() - p.len()) + s.skip(s.len() - p.len()));
    }
}

/// A text holds another exactly where it stands somewhere in it.
pub proof fn law_holds(a: Seq<char>, p: Seq<char>, b: Seq<char>, s: Seq<char>)
    ensures
        text::holds(a + p + b, p),
        text::holds(s, p) ==> exists|x: Seq<char>, y: Seq<char>| s == #[trigger] (x + p + y),
        text::holds(s, p) ==> p.len() <= s.len(),
{
    let all = a + p + b;
    assert(all.subrange(a.len() as int, (a.len() + p.len()) as int) =~= p);
    assert(text::occurs_at(all, p, a.len() as int));
    if text::holds(s, p) {
        let i = choose|i: int| text::occurs_at(s, p, i);
        let x = s.take(i);
        let y = s.skip(i + p.len());
        assert(s =~= x + p + y);
    }
}

/// Replacing a text: what stands before its first occurrence stays, the occurrence gives way, and
/// so on behind it.
pub proof fn law_substituted(a: Seq<char>, p: Seq<char>, b: Seq<char>, by: Seq<char>)
    requires
        p.len() > 0,
        forall|i: int| 0 <= i < a.len() ==> !text::occurs_at(a + p + b, p, i),
    ensures
        text::substituted(a + p + b, p, by) == a + by + text::substituted(b, p, by),
{
    lemma_substituted(a, p, b, by, 0);
    assert(a.skip(0) =~= a);
}

proof fn lemma_substituted(a: Seq<char>, p: Seq<char>, b: Seq<char>, by: Seq<char>, k: int)
    requires
        p.len() > 0,
        0 <= k <= a.len(),
        forall|i: int| 0 <= i < a.len() ==> !text::occurs_at(a + p + b, p, i),
    ensures
        text::substituted_from(a + p + b, p, by, k) == a.skip(k) + by + text::substituted(b, p, by),
    decreases a.len() - k,
{
    let s = a + p + b;
    if k < a.len() {
        lemma_substituted(a, p, b, by, k + 1);
        assert(s[k] == a[k]);
        assert(!text::occurs_at(s, p, k));
        assert(a.skip(k) + by + text::substituted(b, p, by) =~= seq![a[k]] + (a.skip(k + 1) + by
            + text::substituted(b, p, by)));
    } else {
        assert(s.subrange(k, k + p.len()) =~= p);
        assert(text::occurs_at(s, p, k));
        lemma_substituted_behind(s, p, by, k + p.len(), k + p.len());
        assert(s.skip(k + p.len()) =~= b);
        assert(a.skip(k) + by + text::substituted(b, p, by) =~= by + text::substituted(b, p, by));
    }
}

proof fn lemma_substituted_behind(s: Seq<char>, p: Seq<char>, by: Seq<char>, from: int, at: int)
    requires
        p.len() > 0,
        0 <= from <= at <= s.len(),
    ensures
        text::substituted_from(s, p, by, at) == text::substituted_from(
            s.skip(from),
            p,
            by,
            at - from,
        ),
    decreases s.len() - at,
{
    let t = s.skip(from);
    if at < s.len() {
        assert(t[at - from] == s[at]);
        if at + p.len() <= s.len() {
            assert(t.subrange(at - from, at - from + p.len()) =~= s.subrange(at, at + p.len()));
        }
        if text::occurs_at(s, p, at) {
            lemma_substituted_behind(s, p, by, from, at + p.len());
        } else {
            lemma_substituted_behind(s, p, by, from, at + 1);
        }
    } else {
        assert(s.skip(at) =~= t.skip(at - from));
    }
}

/// A text in which another does not occur stays as it is when that is replaced.
pub proof fn law_nothing_substituted(s: Seq<char>, p: Seq<char>, by: Seq<char>)
    requires
        !text::holds(s, p),
    ensures
        text::substituted(s, p, by) == s,
{
    lemma_nothing_substituted(s, p, by, 0);
    assert(s.skip(0) =~= s);
}

proof fn lemma_nothing_substituted(s: Seq<char>, p: Seq<char>, by: Seq<char>, k: int)
    requires
        0 <= k <= s.len(),
        !text::holds(s, p),
    ensures
        text::substituted_from(s, p, by, k) == s.skip(k),
    decreases s.len() - k,
{
    if k < s.len() && p.len() > 0 {
        assert(!text::occurs_at(s, p, k));
        lemma_nothing_substituted(s, p, by, k + 1);
        assert(s.skip(k) =~= seq![s[k]] + s.skip(k + 1));
    }
}

/// Replacing characters works on each alone and keeps their order.
pub proof fn law_expanded(a: Seq<char>, b: Seq<char>, c: char, f: spec_fn(char) -> Seq<char>)
    ensures
        text::expanded(seq![c], f) == f(c),
        text::expanded(a + b, f) == text::expanded(a, f) + text::expanded(b, f),
    decreases b.len(),
{
    assert(seq![c].drop_last() =~= Seq::<char>::empty());
    assert(text::expanded(seq![c].drop_last(), f) =~= Seq::<char>::empty());
    assert(seq![c].last() == c);
    assert(text::expanded(seq![c], f) =~= f(c));
    if b.len() > 0 {
        law_expanded(a, b.drop_last(), c, f);
        assert((a + b).drop_last() =~= a + b.drop_last());
        assert(text::expanded(a + b, f) =~= text::expanded(a, f) + text::expanded(b, f));
    } else {
        assert(a + b =~= a);
        assert(text::expanded(a + b, f) =~= text::expanded(a, f) + text::expanded(b, f));
    }
}

/// Replacing a character by another leaves a text as long, with the one for the other in place.
pub proof fn law_replaced_character(s: Seq<char>, x: char, y: char)
    ensures
        text::expanded(s, text::substitution(x, seq![y])) == Seq::new(
            s.len(),
            |i: int|
                if s[i] == x {
                    y
                } else {
                    s[i]
                },
        ),
    decreases s.len(),
{
    let f = text::substitution(x, seq![y]);
    let r = Seq::new(
        s.len(),
        |i: int|
            if s[i] == x {
                y
            } else {
                s[i]
            },
    );
    if s.len() > 0 {
        law_replaced_character(s.drop_last(), x, y);
        assert(text::expanded(s, f) =~= r);
    } else {
        assert(text::expanded(s, f) =~= r);
    }
}

/// A shortened text keeps to its length. A text that is short enough stays; of a longer one the
/// start stays, and three dots follow.
pub proof fn law_shortened(s: Seq<char>, max: int)
    requires
        max >= 3,
    ensures
        text::shortened(s, max).len() <= max,
        s.len() <= max ==> text::shortened(s, max) == s,
        s.len() > max ==> text::shortened(s, max) == s.take(max - 3) + seq!['.', '.', '.'],
{
    reveal_strlit("...");
    assert("..."@ =~= seq!['.', '.', '.']);
}

/// Texts are ordered by the first character in which they differ, and a start comes before what
/// goes on.
pub proof fn law_text_order(head: Seq<char>, a: Seq<char>, b: Seq<char>)
    requires
        b.len() > 0,
        a.len() == 0 || a[0] < b[0],
    ensures
        text::precedes(head + a, head + b),
        !text::precedes(head + b, head + a),
    decreases head.len(),
{
    if head.len() > 0 {
        law_text_order(head.skip(1), a, b);
        assert((head + a).skip(1) =~= head.skip(1) + a);
        assert((head + b).skip(1) =~= head.skip(1) + b);
    } else {
        assert(head + a =~= a);
        assert(head + b =~= b);
    }
}

/// A prefix is taken off as often as it stands in front.
pub proof fn law_prefix_dropped(p: Seq<char>, rest: Seq<char>)
    requires
        p.len() > 0,
    ensures
        text::drop_prefixes(p + rest, p) == text::drop_prefixes(rest, p),
        !text::begins(rest, p) ==> text::drop_prefixes(rest, p) == rest,
{
    assert((p + rest).take(p.len() as int) =~= p);
    assert((p + rest).skip(p.len() as int) =~= rest);
}

/// The words of a text: a word and the space around it give the word, and then come the words
/// behind it.
pub proof fn law_first_word(a: Seq<char>, w: Seq<char>, rest: Seq<char>)
    requires
        all_in(a, text::white_class()),
        w.len() > 0,
        forall|i: int| 0 <= i < w.len() ==> !text::is_white(#[trigger] w[i]),
        rest.len() == 0 || text::is_white(rest[0]),
    ensures
        text::words(a + w + rest) == seq![w] + text::words(rest),
{
    let s = a + w + rest;
    let i = a.len() as int;
    let j = (a.len() + w.len()) as int;
    assert forall|k: int| 0 <= k < i implies text::is_white(s[k]) by {
        assert(s[k] == a[k]);
    }
    assert forall|k: int| i <= k < j implies !text::is_white(s[k]) by {
        assert(s[k] == w[k - i]);
    }
    if rest.len() > 0 {
        assert(s[j] == rest[0]);
    }
    lemma_run(s, true, 0, i);
    assert(!text::is_white(s[i]));
    lemma_run(s, false, i, j);
    assert(s.subrange(i, j) =~= w);
    lemma_words_behind(s, j, j);
    assert(s.skip(j) =~= rest);
}

/// A text of space holds no word.
pub proof fn law_no_word(a: Seq<char>)
    requires
        all_in(a, text::white_class()),
    ensures
        text::words(a) == Seq::<Seq<char>>::empty(),
{
    lemma_run(a, true, 0, a.len() as int);
}

proof fn lemma_run(s: Seq<char>, in_white: bool, from: int, to: int)
    requires
        0 <= from <= to <= s.len(),
        forall|k: int| from <= k < to ==> text::is_white(#[trigger] s[k]) == in_white,
        to < s.len() ==> text::is_white(s[to]) != in_white,
    ensures
        text::run_end(s, in_white, from) == to,
    decreases to - from,
{
    if from < to {
        lemma_run(s, in_white, from + 1, to);
    }
}

proof fn lemma_run_behind(s: Seq<char>, in_white: bool, from: int, at: int)
    requires
        0 <= from <= at <= s.len(),
    ensures
        text::run_end(s, in_white, at) == from + text::run_end(s.skip(from), in_white, at - from),
    decreases s.len() - at,
{
    if at < s.len() {
        assert(s.skip(from)[at - from] == s[at]);
        lemma_run_behind(s, in_white, from, at + 1);
    }
}

proof fn lemma_words_behind(s: Seq<char>, from: int, at: int)
    requires
        0 <= from <= at <= s.len(),
    ensures
        text::words_from(s, at) == text::words_from(s.skip(from), at - from),
    decreases s.len() - at,
{
    let t = s.skip(from);
    let i = text::run_end(s, true, at);
    text::lemma_run_stop(s, true, at);
    lemma_run_behind(s, true, from, at);
    let j = text::run_end(s, false, i);
    text::lemma_run_stop(s, false, i);
    lemma_run_behind(s, false, from, i);
    if j > i {
        assert(s.subrange(i, j) =~= t.subrange(i - from, j - from));
        lemma_words_behind(s, from, j);
    }
}

} // verus!
