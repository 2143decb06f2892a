//! Text as sequences of characters.
//!
//! The spec functions say what an operation gives as a sequence of characters;
//! the executable functions next to them compute it on strings.

use vstd::prelude::*;
use vstd::string::*;

verus! {

/// `String::push` of std appends one character.
pub assume_specification[ String::push ](s: &mut String, c: char)
    ensures
        final(s)@ == old(s)@.push(c),
;

/// Equality of std's `str` holds exactly where the characters agree.
pub assume_specification[ <str as PartialEq>::eq ](a: &str, b: &str) -> (r: bool)
    ensures
        r == (a@ == b@),
;

/// True of equal texts.
pub open spec fn equal(a: Seq<char>, b: Seq<char>) -> bool {
    a == b
}

/// Returns true when both texts hold the same characters.
pub fn same(a: &str, b: &str) -> (r: bool)
    ensures
        r == equal(a@, b@),
{
    a.eq(b)
}

/// The characters of each text of a list.
pub open spec fn texts(v: Seq<String>) -> Seq<Seq<char>> {
    Seq::new(v.len(), |i: int| v[i]@)
}

/// The characters of an optional text.
pub open spec fn opt_text(s: Option<String>) -> Option<Seq<char>> {
    match s {
        Some(t) => Some(t@),
        None => None,
    }
}

/// The characters of an optional text slice.
pub open spec fn opt_slice(s: Option<&str>) -> Option<Seq<char>> {
    match s {
        Some(t) => Some(t@),
        None => None,
    }
}

/// True where a text comes before another in the order of their characters.
pub open spec fn precedes(a: Seq<char>, b: Seq<char>) -> bool
    decreases a.len(),
{
    if b.len() == 0 {
        false
    } else if a.len() == 0 {
        true
    } else if a[0] == b[0] {
        precedes(a.skip(1), b.skip(1))
    } else {
        a[0] < b[0]
    }
}

/// Returns true when a text comes before another in the order of their characters.
pub fn comes_before(a: &str, b: &str) -> (r: bool)
    ensures
        r == precedes(a@, b@),
{
    let v = chars_of(a);
    let w = chars_of(b);
    let mut i: usize = 0;
    assert(a@.skip(0) =~= a@);
    assert(b@.skip(0) =~= b@);
    loop
        invariant
            v@ == a@,
            w@ == b@,
            i <= v.len(),
            i <= w.len(),
            precedes(a@, b@) == precedes(a@.skip(i as int), b@.skip(i as int)),
        decreases v.len() - i,
    {
        if i >= w.len() {
            return false;
        }
        if i >= v.len() {
            return true;
        }
        proof {
            assert(a@.skip(i as int)[0] == a@[i as int]);
            assert(b@.skip(i as int)[0] == b@[i as int]);
            assert(a@.skip(i as int).skip(1) =~= a@.skip(i + 1));
            assert(b@.skip(i as int).skip(1) =~= b@.skip(i + 1));
        }
        if v[i] != w[i] {
            return v[i] < w[i];
        }
        i += 1;
    }
}

/// The order of texts is strict and total.
pub proof fn lemma_precedes_total(a: Seq<char>, b: Seq<char>)
    ensures
        precedes(a, b) ==> !precedes(b, a) && a != b,
        precedes(a, b) || precedes(b, a) || a == b,
    decreases a.len(),
{
    if a.len() > 0 && b.len() > 0 {
        if a[0] == b[0] {
            lemma_precedes_total(a.skip(1), b.skip(1));
            assert(a =~= seq![a[0]] + a.skip(1));
            assert(b =~= seq![b[0]] + b.skip(1));
        }
    } else if a.len() == 0 && b.len() == 0 {
        assert(a =~= b);
    }
}

/// The order of texts is transitive.
pub proof fn lemma_precedes_transitive(a: Seq<char>, b: Seq<char>, c: Seq<char>)
    requires
        precedes(a, b),
        precedes(b, c),
    ensures
        precedes(a, c),
    decreases a.len(),
{
    if a.len() > 0 && a[0] == b[0] && b[0] == c[0] {
        lemma_precedes_transitive(a.skip(1), b.skip(1), c.skip(1));
    }
}

/// True where a text is one of a list.
pub open spec fn among(list: Seq<&str>, x: Seq<char>) -> bool {
    exists|i: int| 0 <= i < list.len() && (#[trigger] list[i])@ == x
}

/// Returns true when a text is one of a list.
pub fn listed<const N: usize>(list: &[&str; N], x: &str) -> (r: bool)
    ensures
        r == among(list@, x@),
{
    let mut i: usize = 0;
    while i < N
        invariant
            i <= N,
            list@.len() == N,
            forall|k: int| 0 <= k < i ==> x@ != (#[trigger] list@[k])@,
        decreases N - i,
    {
        if same(list[i], x) {
            return true;
        }
        i += 1;
    }
    false
}

/// Copies an optional text.
pub fn clone_opt(s: &Option<String>) -> (r: Option<String>)
    ensures
        r == *s,
{
    match s {
        Some(t) => Some(t.clone()),
        None => None,
    }
}

/// Copies a list of texts.
pub fn clone_texts(v: &Vec<String>) -> (r: Vec<String>)
    ensures
        r@ == v@,
{
    let mut out: Vec<String> = Vec::new();
    let mut i: usize = 0;
    while i < v.len()
        invariant
            i <= v.len(),
            out@ == v@.take(i as int),
        decreases v.len() - i,
    {
        out.push(v[i].clone());
        proof {
            assert(v@.take(i + 1) == v@.take(i as int).push(v@[i as int]));
        }
        i += 1;
    }
    assert(v@.take(v.len() as int) == v@);
    out
}

/// Returns the characters of a text.
pub fn chars_of(s: &str) -> (v: Vec<char>)
    ensures
        v@ == s@,
{
    let mut v: Vec<char> = Vec::new();
    for c in it: s.chars()
        invariant
            v@ == s@.take(it.index() as int),
            it.seq() == s@,
    {
        v.push(c);
    }
    v
}

/// Returns the text made of the characters from `from` up to but not including `to`.
pub fn substring(v: &Vec<char>, from: usize, to: usize) -> (r: String)
    requires
        from <= to <= v.len(),
    ensures
        r@ == v@.subrange(from as int, to as int),
{
    let mut out = String::new();
    let mut i: usize = from;
    while i < to
        invariant
            from <= i <= to <= v.len(),
            out@ == v@.subrange(from as int, i as int),
        decreases to - i,
    {
        out.push(v[i]);
        proof {
            assert(v@.subrange(from as int, i + 1) == v@.subrange(from as int, i as int).push(
                v@[i as int],
            ));
        }
        i += 1;
    }
    out
}

// Character classes.

/// The characters with the Unicode property White_Space.
pub open spec fn is_white(c: char) -> bool {
    let u = c as u32;
    ||| 0x09 <= u <= 0x0D
    ||| u == 0x20
    ||| u == 0x85
    ||| u == 0xA0
    ||| u == 0x1680
    ||| 0x2000 <= u <= 0x200A
    ||| u == 0x2028
    ||| u == 0x2029
    ||| u == 0x202F
    ||| u == 0x205F
    ||| u == 0x3000
}

/// Returns true for white space.
pub fn white(c: char) -> (r: bool)
    ensures
        r == is_white(c),
{
    let u: u32 = c as u32;
    (0x09 <= u && u <= 0x0D) || u == 0x20 || u == 0x85 || u == 0xA0 || u == 0x1680 || (0x2000 <= u
        && u <= 0x200A) || u == 0x2028 || u == 0x2029 || u == 0x202F || u == 0x205F || u == 0x3000
}

/// The ASCII digits.
pub open spec fn is_digit(c: char) -> bool {
    '0' <= c <= '9'
}

/// The lower-case form of an ASCII letter; any other character unchanged.
pub open spec fn lower_char(c: char) -> char {
    if 'A' <= c <= 'Z' {
        ((c as u8) + 32) as u8 as char
    } else {
        c
    }
}

/// Lower-cases an ASCII letter.
pub fn ascii_lower_char(c: char) -> (r: char)
    ensures
        r == lower_char(c),
{
    if 'A' <= c && c <= 'Z' {
        ((c as u8) + 32) as char
    } else {
        c
    }
}

/// The upper-case form of an ASCII letter; any other character unchanged.
pub open spec fn upper_char(c: char) -> char {
    if 'a' <= c <= 'z' {
        ((c as u8) - 32) as u8 as char
    } else {
        c
    }
}

/// Upper-cases an ASCII letter.
pub fn ascii_upper_char(c: char) -> (r: char)
    ensures
        r == upper_char(c),
{
    if 'a' <= c && c <= 'z' {
        ((c as u8) - 32) as char
    } else {
        c
    }
}

/// A text with its ASCII letters in lower case.
pub open spec fn lowered(s: Seq<char>) -> Seq<char> {
    Seq::new(s.len(), |i: int| lower_char(s[i]))
}

/// Lower-cases the ASCII letters of a text.
pub fn ascii_lowercase(s: &str) -> (r: String)
    ensures
        r@ == lowered(s@),
{
    let v = chars_of(s);
    let mut out = String::new();
    let mut i: usize = 0;
    while i < v.len()
        invariant
            i <= v.len(),
            v@ == s@,
            out@ == lowered(s@).take(i as int),
        decreases v.len() - i,
    {
        out.push(ascii_lower_char(v[i]));
        proof {
            assert(lowered(s@).take(i + 1) == lowered(s@).take(i as int).push(
                lower_char(s@[i as int]),
            ));
        }
        i += 1;
    }
    assert(lowered(s@).take(v.len() as int) == lowered(s@));
    out
}

/// Returns true when two texts agree up to the case of ASCII letters.
pub fn same_ignoring_case(a: &str, b: &str) -> (r: bool)
    ensures
        r == (lowered(a@) == lowered(b@)),
{
    same(ascii_lowercase(a).as_str(), ascii_lowercase(b).as_str())
}

/// True of a text of ASCII characters.
pub open spec fn is_ascii_text(s: Seq<char>) -> bool {
    forall|i: int| 0 <= i < s.len() ==> (#[trigger] s[i] as u32) < 0x80
}

/// The lower-case form that `str::to_lowercase` of std gives of a text with characters
/// beyond ASCII.
pub uninterp spec fn unicode_lowered(s: Seq<char>) -> Seq<char>;

/// A text in lower case.
pub open spec fn lower_text(s: Seq<char>) -> Seq<char> {
    if is_ascii_text(s) {
        lowered(s)
    } else {
        unicode_lowered(s)
    }
}

/// `str::to_lowercase` of std. On an ASCII text it lower-cases the letters A to Z; on any
/// other text the result depends on the text alone, and what the Unicode tables say of it
/// is not stated.
#[verifier::external_body]
pub(crate) fn to_lowercase(s: &str) -> (r: String)
    ensures
        r@ == (if is_ascii_text(s@) {
            lowered(s@)
        } else {
            unicode_lowered(s@)
        }),
{
    s.to_lowercase()
}

// Taking text apart.

/// The predicate that holds of white space.
pub open spec fn white_class() -> spec_fn(char) -> bool {
    |c: char| is_white(c)
}

/// The predicate that holds of one character.
pub open spec fn just(x: char) -> spec_fn(char) -> bool {
    |c: char| c == x
}

/// A text without its longest prefix of characters in a class.
pub open spec fn drop_leading(s: Seq<char>, p: spec_fn(char) -> bool) -> Seq<char>
    decreases s.len(),
{
    if s.len() > 0 && p(s[0]) {
        drop_leading(s.skip(1), p)
    } else {
        s
    }
}

/// A text without its longest suffix of characters in a class.
pub open spec fn drop_trailing(s: Seq<char>, p: spec_fn(char) -> bool) -> Seq<char>
    decreases s.len(),
{
    if s.len() > 0 && p(s.last()) {
        drop_trailing(s.drop_last(), p)
    } else {
        s
    }
}

/// A text without leading and trailing white space.
pub open spec fn trimmed(s: Seq<char>) -> Seq<char> {
    drop_trailing(drop_leading(s, white_class()), white_class())
}

/// Removes leading and trailing white space.
pub fn trim(s: &str) -> (r: String)
    ensures
        r@ == trimmed(s@),
{
    let v = chars_of(s);
    let n: usize = v.len();
    let mut i: usize = 0;
    assert(s@.skip(0) == s@);
    while i < n && white(v[i])
        invariant
            i <= n,
            n == v.len(),
            v@ == s@,
            drop_leading(s@, white_class()) == drop_leading(s@.skip(i as int), white_class()),
        decreases n - i,
    {
        proof {
            assert(s@.skip(i as int)[0] == s@[i as int]);
            assert(s@.skip(i as int).skip(1) == s@.skip(i + 1));
        }
        i += 1;
    }
    let ghost lead = s@.skip(i as int);
    proof {
        if i < n {
            assert(lead[0] == s@[i as int]);
        }
        assert(drop_leading(s@, white_class()) == lead);
    }
    let mut j: usize = n;
    assert(s@.subrange(i as int, j as int) == lead);
    while i < j && white(v[j - 1])
        invariant
            i <= j <= n,
            n == v.len(),
            v@ == s@,
            drop_trailing(lead, white_class()) == drop_trailing(
                s@.subrange(i as int, j as int),
                white_class(),
            ),
        decreases j,
    {
        proof {
            let part = s@.subrange(i as int, j as int);
            assert(part.last() == s@[j - 1]);
            assert(part.drop_last() == s@.subrange(i as int, j - 1));
        }
        j -= 1;
    }
    proof {
        let part = s@.subrange(i as int, j as int);
        if i < j {
            assert(part.last() == s@[j - 1]);
        }
        assert(drop_trailing(part, white_class()) == part);
    }
    substring(&v, i, j)
}

/// Removes leading white space.
pub fn trim_start(s: &str) -> (r: String)
    ensures
        r@ == drop_leading(s@, white_class()),
{
    let v = chars_of(s);
    let n: usize = v.len();
    let mut i: usize = 0;
    assert(s@.skip(0) == s@);
    while i < n && white(v[i])
        invariant
            i <= n,
            n == v.len(),
            v@ == s@,
            drop_leading(s@, white_class()) == drop_leading(s@.skip(i as int), white_class()),
        decreases n - i,
    {
        proof {
            assert(s@.skip(i as int)[0] == s@[i as int]);
            assert(s@.skip(i as int).skip(1) == s@.skip(i + 1));
        }
        i += 1;
    }
    proof {
        if i < n {
            assert(s@.skip(i as int)[0] == s@[i as int]);
        }
        assert(s@.subrange(i as int, n as int) == s@.skip(i as int));
    }
    substring(&v, i, n)
}

/// Returns true when a text holds nothing but white space.
pub fn blank(s: &str) -> (r: bool)
    ensures
        r == (trimmed(s@).len() == 0),
{
    trim(s).as_str().unicode_len() == 0
}

/// Removes every leading occurrence of a character.
pub fn trim_start_char(s: &str, x: char) -> (r: String)
    ensures
        r@ == drop_leading(s@, just(x)),
{
    let v = chars_of(s);
    let n: usize = v.len();
    let mut i: usize = 0;
    assert(s@.skip(0) == s@);
    while i < n && v[i] == x
        invariant
            i <= n,
            n == v.len(),
            v@ == s@,
            drop_leading(s@, just(x)) == drop_leading(s@.skip(i as int), just(x)),
        decreases n - i,
    {
        proof {
            assert(s@.skip(i as int)[0] == s@[i as int]);
            assert(s@.skip(i as int).skip(1) == s@.skip(i + 1));
        }
        i += 1;
    }
    proof {
        if i < n {
            assert(s@.skip(i as int)[0] == s@[i as int]);
        }
        assert(s@.subrange(i as int, n as int) == s@.skip(i as int));
    }
    substring(&v, i, n)
}

/// Removes every trailing occurrence of a character.
pub fn trim_end_char(s: &str, x: char) -> (r: String)
    ensures
        r@ == drop_trailing(s@, just(x)),
{
    let v = chars_of(s);
    let mut j: usize = v.len();
    assert(s@.take(s@.len() as int) == s@);
    while 0 < j && v[j - 1] == x
        invariant
            j <= v.len(),
            v@ == s@,
            drop_trailing(s@, just(x)) == drop_trailing(s@.take(j as int), just(x)),
        decreases j,
    {
        proof {
            assert(s@.take(j as int).last() == s@[j - 1]);
            assert(s@.take(j as int).drop_last() == s@.take(j - 1));
        }
        j -= 1;
    }
    proof {
        if 0 < j {
            assert(s@.take(j as int).last() == s@[j - 1]);
        }
        assert(s@.subrange(0, j as int) == s@.take(j as int));
    }
    substring(&v, 0, j)
}

/// True where a text begins with another.
pub open spec fn begins(s: Seq<char>, p: Seq<char>) -> bool {
    p.len() <= s.len() && s.take(p.len() as int) == p
}

/// True where a text ends with another.
pub open spec fn finishes(s: Seq<char>, p: Seq<char>) -> bool {
    p.len() <= s.len() && s.skip(s.len() - p.len()) == p
}

/// Returns true when a text begins with another.
pub fn starts_with(s: &str, p: &str) -> (r: bool)
    ensures
        r == begins(s@, p@),
{
    strip_prefix(s, p).is_some()
}

/// Returns true when a text ends with another.
pub fn ends_with(s: &str, p: &str) -> (r: bool)
    ensures
        r == finishes(s@, p@),
{
    strip_suffix(s, p).is_some()
}

/// Removes a prefix, or gives nothing where the text does not begin with it.
pub fn strip_prefix(s: &str, p: &str) -> (r: Option<String>)
    ensures
        opt_text(r) == (if begins(s@, p@) {
            Some(s@.skip(p@.len() as int))
        } else {
            None
        }),
{
    let v = chars_of(s);
    let w = chars_of(p);
    if w.len() > v.len() {
        return None;
    }
    let head = substring(&v, 0, w.len());
    assert(s@.take(p@.len() as int) == s@.subrange(0, p@.len() as int));
    if same(head.as_str(), p) {
        assert(s@.skip(p@.len() as int) == s@.subrange(p@.len() as int, s@.len() as int));
        Some(substring(&v, w.len(), v.len()))
    } else {
        None
    }
}

/// Removes a suffix, or gives nothing where the text does not end with it.
pub fn strip_suffix(s: &str, p: &str) -> (r: Option<String>)
    ensures
        opt_text(r) == (if finishes(s@, p@) {
            Some(s@.take(s@.len() - p@.len()))
        } else {
            None
        }),
{
    let v = chars_of(s);
    let w = chars_of(p);
    if w.len() > v.len() {
        return None;
    }
    let cut: usize = v.len() - w.len();
    let tail = substring(&v, cut, v.len());
    assert(s@.skip(cut as int) == s@.subrange(cut as int, s@.len() as int));
    if same(tail.as_str(), p) {
        assert(s@.take(cut as int) == s@.subrange(0, cut as int));
        Some(substring(&v, 0, cut))
    } else {
        None
    }
}

/// A text without as many leading copies of a prefix as it has.
pub open spec fn drop_prefixes(s: Seq<char>, p: Seq<char>) -> Seq<char>
    decreases s.len(),
{
    if p.len() > 0 && begins(s, p) {
        drop_prefixes(s.skip(p.len() as int), p)
    } else {
        s
    }
}

/// Removes every leading copy of a prefix.
pub fn trim_start_text(s: &str, p: &str) -> (r: String)
    ensures
        r@ == drop_prefixes(s@, p@),
{
    let mut rest = s.to_owned();
    if p.is_empty() {
        return rest;
    }
    loop
        invariant
            p@.len() > 0,
            drop_prefixes(s@, p@) == drop_prefixes(rest@, p@),
        decreases rest@.len(),
    {
        match strip_prefix(rest.as_str(), p) {
            Some(shorter) => {
                rest = shorter;
            },
            None => {
                return rest;
            },
        }
    }
}

/// The first position from `from` on at which a character stands, or the length.
pub open spec fn position(s: Seq<char>, x: char, from: int) -> int
    decreases s.len() - from,
{
    if from >= s.len() {
        s.len() as int
    } else if s[from] == x {
        from
    } else {
        position(s, x, from + 1)
    }
}

/// The position lies in the text and holds the character, and no earlier one does.
pub proof fn lemma_position(s: Seq<char>, x: char, from: int)
    requires
        0 <= from <= s.len(),
    ensures
        from <= position(s, x, from) <= s.len(),
        position(s, x, from) < s.len() ==> s[position(s, x, from)] == x,
        forall|k: int| from <= k < position(s, x, from) ==> s[k] != x,
    decreases s.len() - from,
{
    if from < s.len() && s[from] != x {
        lemma_position(s, x, from + 1);
    }
}

/// Finds the first position from `from` on at which a character stands.
pub fn find_char(v: &Vec<char>, x: char, from: usize) -> (r: usize)
    requires
        from <= v.len(),
    ensures
        r == position(v@, x, from as int),
        from <= r <= v.len(),
{
    let mut i: usize = from;
    while i < v.len() && v[i] != x
        invariant
            from <= i <= v.len(),
            position(v@, x, from as int) == position(v@, x, i as int),
        decreases v.len() - i,
    {
        i += 1;
    }
    i
}

/// The last position before `to` at which a character stands, or minus one.
pub open spec fn last_position(s: Seq<char>, x: char, to: int) -> int
    decreases to,
{
    if to <= 0 {
        -1
    } else if s[to - 1] == x {
        to - 1
    } else {
        last_position(s, x, to - 1)
    }
}

/// What stands before and after the first occurrence of a character.
pub open spec fn cut_first(s: Seq<char>, x: char) -> Option<(Seq<char>, Seq<char>)> {
    let i = position(s, x, 0);
    if i < s.len() {
        Some((s.take(i), s.skip(i + 1)))
    } else {
        None
    }
}

/// What stands before and after the last occurrence of a character.
pub open spec fn cut_last(s: Seq<char>, x: char) -> Option<(Seq<char>, Seq<char>)> {
    let i = last_position(s, x, s.len() as int);
    if i >= 0 {
        Some((s.take(i), s.skip(i + 1)))
    } else {
        None
    }
}

/// The characters of an optional pair of texts.
pub open spec fn opt_pair(p: Option<(String, String)>) -> Option<(Seq<char>, Seq<char>)> {
    match p {
        Some((a, b)) => Some((a@, b@)),
        None => None,
    }
}

/// Splits a text at the first occurrence of a character.
pub fn split_once(s: &str, x: char) -> (r: Option<(String, String)>)
    ensures
        opt_pair(r) == cut_first(s@, x),
{
    let v = chars_of(s);
    let i: usize = find_char(&v, x, 0);
    if i < v.len() {
        assert(s@.take(i as int) == s@.subrange(0, i as int));
        assert(s@.skip(i + 1) == s@.subrange(i + 1, s@.len() as int));
        Some((substring(&v, 0, i), substring(&v, i + 1, v.len())))
    } else {
        None
    }
}

/// Splits a text at the last occurrence of a character.
pub fn rsplit_once(s: &str, x: char) -> (r: Option<(String, String)>)
    ensures
        opt_pair(r) == cut_last(s@, x),
{
    let v = chars_of(s);
    let mut j: usize = v.len();
    while 0 < j && v[j - 1] != x
        invariant
            j <= v.len(),
            v@ == s@,
            last_position(s@, x, s@.len() as int) == last_position(s@, x, j as int),
        decreases j,
    {
        j -= 1;
    }
    if 0 < j {
        assert(s@.take(j - 1) == s@.subrange(0, j - 1));
        assert(s@.skip(j as int) == s@.subrange(j as int, s@.len() as int));
        Some((substring(&v, 0, j - 1), substring(&v, j, v.len())))
    } else {
        None
    }
}

/// The parts of a text, from `from` on, between the occurrences of a character.
pub open spec fn parts_from(s: Seq<char>, x: char, from: int) -> Seq<Seq<char>>
    decreases s.len() - from,
{
    let i = position(s, x, from);
    if from < 0 || i < from || i >= s.len() {
        seq![s.subrange(from, s.len() as int)]
    } else {
        seq![s.subrange(from, i)] + parts_from(s, x, i + 1)
    }
}

/// The parts of a text between the occurrences of a character.
pub open spec fn parts(s: Seq<char>, x: char) -> Seq<Seq<char>> {
    parts_from(s, x, 0)
}

/// A position is the one in what stands behind `from`, moved by `from`.
proof fn lemma_position_skip(s: Seq<char>, x: char, from: int, at: int)
    requires
        0 <= from <= at <= s.len(),
    ensures
        position(s, x, at) == from + position(s.skip(from), x, at - from),
    decreases s.len() - at,
{
    if at < s.len() {
        assert(s.skip(from)[at - from] == s[at]);
        if s[at] != x {
            lemma_position_skip(s, x, from, at + 1);
        }
    }
}

/// The parts from a position on are the parts of what stands there.
proof fn lemma_parts_skip(s: Seq<char>, x: char, from: int, at: int)
    requires
        0 <= from <= at <= s.len(),
    ensures
        parts_from(s, x, at) == parts_from(s.skip(from), x, at - from),
    decreases s.len() - at,
{
    let t = s.skip(from);
    let i = position(s, x, at);
    lemma_position(s, x, at);
    lemma_position_skip(s, x, from, at);
    assert(s.subrange(at, s.len() as int) =~= t.subrange(at - from, t.len() as int));
    if i < s.len() {
        lemma_parts_skip(s, x, from, i + 1);
        assert(s.subrange(at, i) =~= t.subrange(at - from, i - from));
    }
}

/// A text without the character is one part.
pub proof fn lemma_one_part(s: Seq<char>, x: char)
    requires
        !s.contains(x),
    ensures
        parts(s, x) == seq![s],
{
    lemma_position(s, x, 0);
    let i = position(s, x, 0);
    if i < s.len() {
        assert(s.contains(s[i]));
    }
    assert(s.subrange(0, s.len() as int) =~= s);
}

/// What stands before the first occurrence of the character is the first part.
pub proof fn lemma_first_part(a: Seq<char>, x: char, rest: Seq<char>)
    requires
        !a.contains(x),
    ensures
        parts(a + seq![x] + rest, x) == seq![a] + parts(rest, x),
{
    let s = a + seq![x] + rest;
    lemma_position(s, x, 0);
    let i = position(s, x, 0);
    assert(s[a.len() as int] == x);
    if i < a.len() {
        assert(a[i] == s[i]);
        assert(a.contains(a[i]));
    }
    assert(i == a.len());
    assert(s.subrange(0, i) =~= a);
    lemma_parts_skip(s, x, i + 1, i + 1);
    assert(s.skip(i + 1) =~= rest);
}

/// Splits a text at every occurrence of a character.
pub fn split(s: &str, x: char) -> (r: Vec<String>)
    ensures
        texts(r@) == parts(s@, x),
{
    let v = chars_of(s);
    let mut out: Vec<String> = Vec::new();
    let mut from: usize = 0;
    assert(texts(out@) =~= seq![]);
    loop
        invariant_except_break
            from <= v.len(),
            v@ == s@,
            parts(s@, x) == texts(out@) + parts_from(s@, x, from as int),
        ensures
            texts(out@) == parts(s@, x),
        decreases v.len() - from,
    {
        let i: usize = find_char(&v, x, from);
        let ghost before = out@;
        out.push(substring(&v, from, i));
        proof {
            lemma_texts_push(before, out@.last());
        }
        if i >= v.len() {
            proof {
                assert(texts(out@) == texts(before) + seq![s@.subrange(from as int, i as int)]);
            }
            break;
        }
        proof {
            assert(texts(out@) + parts_from(s@, x, i + 1) == texts(before) + (seq![
                s@.subrange(from as int, i as int),
            ] + parts_from(s@, x, i + 1)));
        }
        from = i + 1;
    }
    out
}

/// Adding a text to a list adds its characters to the list's characters.
pub proof fn lemma_texts_push(list: Seq<String>, s: String)
    ensures
        texts(list.push(s)) == texts(list).push(s@),
{
    assert(texts(list.push(s)) =~= texts(list).push(s@));
}

/// The words of a text from `from` on: its longest runs without white space.
pub open spec fn words_from(s: Seq<char>, from: int) -> Seq<Seq<char>>
    decreases s.len() - from,
{
    let i = run_end(s, true, from);
    let j = run_end(s, false, i);
    if from < 0 || i < from || j <= i || j > s.len() {
        seq![]
    } else {
        seq![s.subrange(i, j)] + words_from(s, j)
    }
}

/// The end of the run, from `from` on, of white space or of anything else.
pub open spec fn run_end(s: Seq<char>, in_white: bool, from: int) -> int
    decreases s.len() - from,
{
    if from >= s.len() {
        s.len() as int
    } else if is_white(s[from]) == in_white {
        run_end(s, in_white, from + 1)
    } else {
        from
    }
}

/// The words of a text: its longest runs without white space.
pub open spec fn words(s: Seq<char>) -> Seq<Seq<char>> {
    words_from(s, 0)
}

/// Finds the end of a run of white space or of anything else.
pub fn scan_run(v: &Vec<char>, in_white: bool, from: usize) -> (r: usize)
    requires
        from <= v.len(),
    ensures
        r == run_end(v@, in_white, from as int),
        from <= r <= v.len(),
        from < v.len() && is_white(v@[from as int]) == in_white ==> from < r,
{
    let mut i: usize = from;
    while i < v.len() && white(v[i]) == in_white
        invariant
            from <= i <= v.len(),
            run_end(v@, in_white, from as int) == run_end(v@, in_white, i as int),
            from < v.len() && is_white(v@[from as int]) == in_white && i == from ==> i < v.len(),
        decreases v.len() - i,
    {
        i += 1;
    }
    i
}

/// Splits a text into its words.
pub fn split_words(s: &str) -> (r: Vec<String>)
    ensures
        texts(r@) == words(s@),
{
    let v = chars_of(s);
    let mut out: Vec<String> = Vec::new();
    let mut from: usize = 0;
    assert(texts(out@) =~= seq![]);
    loop
        invariant_except_break
            from <= v.len(),
            v@ == s@,
            words(s@) == texts(out@) + words_from(s@, from as int),
        ensures
            texts(out@) == words(s@),
        decreases v.len() - from,
    {
        let i: usize = scan_run(&v, true, from);
        let j: usize = scan_run(&v, false, i);
        if i >= v.len() {
            assert(words_from(s@, from as int) =~= seq![]);
            break;
        }
        proof {
            lemma_run_stop(s@, true, from as int);
        }
        let ghost before = out@;
        out.push(substring(&v, i, j));
        proof {
            lemma_texts_push(before, out@.last());
            assert(texts(out@) + words_from(s@, j as int) == texts(before) + (seq![
                s@.subrange(i as int, j as int),
            ] + words_from(s@, j as int)));
        }
        from = j;
    }
    out
}

/// A run ends at a character of the other kind or at the end of the text.
pub proof fn lemma_run_stop(s: Seq<char>, in_white: bool, from: int)
    requires
        0 <= from <= s.len(),
    ensures
        from <= run_end(s, in_white, from) <= s.len(),
        run_end(s, in_white, from) < s.len() ==> is_white(s[run_end(s, in_white, from)])
            != in_white,
    decreases s.len() - from,
{
    if from < s.len() && is_white(s[from]) == in_white {
        lemma_run_stop(s, in_white, from + 1);
    }
}

// Putting text together.

/// The texts of a list in order, with a separator between neighbours.
pub open spec fn joined(list: Seq<Seq<char>>, sep: Seq<char>) -> Seq<char>
    decreases list.len(),
{
    if list.len() == 0 {
        seq![]
    } else if list.len() == 1 {
        list[0]
    } else {
        joined(list.drop_last(), sep) + sep + list.last()
    }
}

/// Joins texts with a separator.
pub fn join(list: &Vec<String>, sep: &str) -> (r: String)
    ensures
        r@ == joined(texts(list@), sep@),
{
    let mut out = String::new();
    let ghost all = texts(list@);
    let mut i: usize = 0;
    while i < list.len()
        invariant
            i <= list.len(),
            all == texts(list@),
            out@ == joined(all.take(i as int), sep@),
        decreases list.len() - i,
    {
        proof {
            assert(all.take(i + 1).drop_last() == all.take(i as int));
            assert(all.take(i + 1).last() == list@[i as int]@);
        }
        if i > 0 {
            out.append(sep);
        }
        out.append(list[i].as_str());
        proof {
            if i == 0 {
                assert(out@ == list@[0]@);
                assert(all.take(1)[0] == list@[0]@);
            }
        }
        i += 1;
    }
    assert(all.take(list.len() as int) == all);
    out
}

/// A text with each character replaced by a text of its own.
pub open spec fn expanded(s: Seq<char>, f: spec_fn(char) -> Seq<char>) -> Seq<char>
    decreases s.len(),
{
    if s.len() == 0 {
        seq![]
    } else {
        expanded(s.drop_last(), f) + f(s.last())
    }
}

/// What replaces each character where one character gives way to a text.
pub open spec fn substitution(x: char, by: Seq<char>) -> spec_fn(char) -> Seq<char> {
    |c: char| if c == x { by } else { seq![c] }
}

/// A text in which one character has given way to another text does not hold it any more.
pub proof fn lemma_substitution_removes(s: Seq<char>, x: char, by: Seq<char>)
    requires
        !by.contains(x),
    ensures
        !expanded(s, substitution(x, by)).contains(x),
    decreases s.len(),
{
    if s.len() > 0 {
        lemma_substitution_removes(s.drop_last(), x, by);
        let head = expanded(s.drop_last(), substitution(x, by));
        let tail = substitution(x, by)(s.last());
        assert forall|i: int| 0 <= i < (head + tail).len() implies (head + tail)[i] != x by {
            if i < head.len() {
                assert(head.contains(head[i]));
            } else {
                assert(tail.contains(tail[i - head.len()]));
            }
        }
    }
}

/// Replaces every occurrence of a character by a text.
pub fn replace_char(s: &str, x: char, by: &str) -> (r: String)
    ensures
        r@ == expanded(s@, substitution(x, by@)),
{
    let v = chars_of(s);
    let mut out = String::new();
    let mut i: usize = 0;
    while i < v.len()
        invariant
            i <= v.len(),
            v@ == s@,
            out@ == expanded(s@.take(i as int), substitution(x, by@)),
        decreases v.len() - i,
    {
        proof {
            assert(s@.take(i + 1).drop_last() == s@.take(i as int));
            assert(s@.take(i + 1).last() == s@[i as int]);
        }
        let ghost before = out@;
        if v[i] == x {
            out.append(by);
        } else {
            out.push(v[i]);
            assert(before.push(s@[i as int]) == before + seq![s@[i as int]]);
        }
        i += 1;
    }
    assert(s@.take(v.len() as int) == s@);
    out
}

/// True where a text holds another at a position.
pub open spec fn occurs_at(s: Seq<char>, p: Seq<char>, i: int) -> bool {
    0 <= i && i + p.len() <= s.len() && s.subrange(i, i + p.len()) == p
}

/// True where a text holds another somewhere.
pub open spec fn holds(s: Seq<char>, p: Seq<char>) -> bool {
    exists|i: int| occurs_at(s, p, i)
}

/// Returns true when a text stands at a position of another.
fn stands_at(v: &Vec<char>, w: &Vec<char>, i: usize) -> (r: bool)
    requires
        i <= v.len(),
    ensures
        r == occurs_at(v@, w@, i as int),
{
    if w.len() > v.len() - i {
        return false;
    }
    let mut k: usize = 0;
    while k < w.len()
        invariant
            i + w.len() <= v.len(),
            k <= w.len(),
            forall|m: int| 0 <= m < k ==> v@[i + m] == w@[m],
        decreases w.len() - k,
    {
        if v[i + k] != w[k] {
            proof {
                assert(v@.subrange(i as int, i + w@.len())[k as int] != w@[k as int]);
            }
            return false;
        }
        k += 1;
    }
    proof {
        assert(v@.subrange(i as int, i + w@.len()) =~= w@);
    }
    true
}

/// Returns true when a text holds another somewhere.
pub fn contains(s: &str, p: &str) -> (r: bool)
    ensures
        r == holds(s@, p@),
{
    let v = chars_of(s);
    let w = chars_of(p);
    let mut i: usize = 0;
    while i < v.len()
        invariant
            v@ == s@,
            w@ == p@,
            i <= v.len(),
            forall|k: int| 0 <= k < i ==> !occurs_at(s@, p@, k),
        decreases v.len() - i,
    {
        if stands_at(&v, &w, i) {
            return true;
        }
        i += 1;
    }
    stands_at(&v, &w, i)
}

/// Returns true when a character occurs in a text.
pub fn contains_char(s: &str, x: char) -> (r: bool)
    ensures
        r == s@.contains(x),
{
    let v = chars_of(s);
    let i: usize = find_char(&v, x, 0);
    proof {
        lemma_position(s@, x, 0);
    }
    i < v.len()
}

/// A text, from `from` on, with each occurrence of a pattern replaced, found from left to right.
pub open spec fn substituted_from(s: Seq<char>, p: Seq<char>, by: Seq<char>, from: int) -> Seq<char>
    decreases s.len() - from,
{
    if p.len() == 0 || from >= s.len() {
        s.skip(from)
    } else if occurs_at(s, p, from) {
        by + substituted_from(s, p, by, from + p.len())
    } else {
        seq![s[from]] + substituted_from(s, p, by, from + 1)
    }
}

/// A text with each occurrence of a non-empty pattern replaced, found from left to right.
pub open spec fn substituted(s: Seq<char>, p: Seq<char>, by: Seq<char>) -> Seq<char> {
    substituted_from(s, p, by, 0)
}

/// Replaces every occurrence of a non-empty pattern.
pub fn replace_text(s: &str, p: &str, by: &str) -> (r: String)
    requires
        p@.len() > 0,
    ensures
        r@ == substituted(s@, p@, by@),
{
    let v = chars_of(s);
    let w = chars_of(p);
    let mut out = String::new();
    let mut i: usize = 0;
    while i < v.len()
        invariant
            i <= v.len(),
            v@ == s@,
            w@ == p@,
            p@.len() > 0,
            substituted(s@, p@, by@) == out@ + substituted_from(s@, p@, by@, i as int),
        decreases v.len() - i,
    {
        let ghost before = out@;
        if stands_at(&v, &w, i) {
            out.append(by);
            proof {
                let rest = substituted_from(s@, p@, by@, i + p@.len());
                assert(before + (by@ + rest) == (before + by@) + rest);
            }
            i += w.len();
        } else {
            out.push(v[i]);
            proof {
                let rest = substituted_from(s@, p@, by@, i + 1);
                assert(before + (seq![s@[i as int]] + rest) == before.push(s@[i as int]) + rest);
            }
            i += 1;
        }
    }
    proof {
        assert(s@.skip(s@.len() as int) =~= seq![]);
        assert(out@ + seq![] =~= out@);
    }
    out
}

/// A text of at most `max` characters: the text itself, or its start and three dots.
pub open spec fn shortened(s: Seq<char>, max: int) -> Seq<char> {
    if s.len() <= max {
        s
    } else {
        s.take(if max >= 3 { max - 3 } else { 0 }) + "..."@
    }
}

/// Shortens a text to a number of characters.
pub fn shorten(s: &str, max: usize) -> (r: String)
    ensures
        r@ == shortened(s@, max as int),
{
    let v = chars_of(s);
    if v.len() <= max {
        return s.to_owned();
    }
    let keep: usize = if max >= 3 {
        max - 3
    } else {
        0
    };
    assert(s@.take(keep as int) == s@.subrange(0, keep as int));
    substring(&v, 0, keep).concat("...")
}

} // verus!
