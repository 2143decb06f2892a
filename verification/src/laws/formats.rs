//! Laws on the forms that numbers, addresses, settings and cookies are written in.

use vstd::prelude::*;
use vstd::utf8::*;
use crate::cli;
use crate::cli::CliView;
use crate::config;
use crate::cookies;
use crate::escaping;
use crate::laws::texts;
use crate::models;
use crate::models::FileHit;
use crate::numbers;
use crate::parser;
use crate::telegram;
use crate::text;

verus! {

// Numbers.

/// The ten digits stand for their values.
pub proof fn law_digits(d: int)
    requires
        0 <= d < 10,
    ensures
        numbers::digit(d) == "0123456789"@[d],
        numbers::digit_value("0123456789"@[d]) == d,
{
    reveal_strlit("0123456789");
}

/// A number of one digit is that digit, and a digit behind a number is ten times the number and the
/// digit. A negative number has a sign in front.
pub proof fn law_numerals(n: nat, d: nat)
    requires
        d < 10,
    ensures
        numbers::numeral(d) == seq![numbers::digit(d as int)],
        n > 0 ==> numbers::numeral(10 * n + d) == numbers::numeral(n).push(
            numbers::digit(d as int),
        ),
        numbers::signed_numeral(n as int) == numbers::numeral(n),
        n > 0 ==> numbers::signed_numeral(-(n as int)) == seq!['-'] + numbers::numeral(n),
{
}

/// What is written is read back, within the limit, and with a sign too; nothing above the limit is
/// read, and no text with another character in it.
pub proof fn law_numbers_are_read_back(n: nat, max: nat, s: Seq<char>, i: int)
    ensures
        n <= max ==> numbers::unsigned_value(numbers::numeral(n), max) == Some(n),
        n > max ==> numbers::unsigned_value(numbers::numeral(n), max) is None,
        n <= max ==> numbers::unsigned_value(seq!['+'] + numbers::numeral(n), max) == Some(n),
        n <= max ==> numbers::signed_value(numbers::numeral(n), max) == Some(n as int),
        n > max ==> numbers::signed_value(numbers::numeral(n), max) is None,
        n <= max + 1 ==> numbers::signed_value(seq!['-'] + numbers::numeral(n), max) == Some(
            -(n as int),
        ),
        n > max + 1 ==> numbers::signed_value(seq!['-'] + numbers::numeral(n), max) is None,
        0 < i < s.len() && !('0' <= s[i] <= '9') ==> numbers::unsigned_value(s, max) is None
            && numbers::signed_value(s, max) is None,
        s.len() == 0 ==> numbers::unsigned_value(s, max) is None && numbers::signed_value(
            s,
            max,
        ) is None,
{
    numbers::law_numeral_round_trip(n);
    let t = numbers::numeral(n);
    assert(text::is_digit(t[0]));
    let plus = seq!['+'] + t;
    let minus = seq!['-'] + t;
    assert(plus.skip(1) =~= t);
    assert(minus.skip(1) =~= t);
    if 0 < i < s.len() && !('0' <= s[i] <= '9') {
        assert(s.skip(1)[i - 1] == s[i]);
        assert(!text::is_digit(s[i]));
        assert(!numbers::all_digits(s.skip(1)));
        assert(!numbers::all_digits(s));
    }
}

// Escapes.

/// The digits of base sixteen.
pub proof fn law_hex_digits(d: int)
    requires
        0 <= d < 16,
    ensures
        escaping::upper_hex(d) == "0123456789ABCDEF"@[d],
        escaping::lower_hex(d) == "0123456789abcdef"@[d],
{
    reveal_strlit("0123456789ABCDEF");
    reveal_strlit("0123456789abcdef");
}

/// Bytes are written as two digits of base sixteen each, in order.
pub proof fn law_hex_text(b: Seq<u8>, i: int)
    requires
        0 <= i < b.len(),
    ensures
        escaping::hex_text(b).len() == 2 * b.len(),
        escaping::hex_text(b)[2 * i] == "0123456789abcdef"@[(b[i] / 16) as int],
        escaping::hex_text(b)[2 * i + 1] == "0123456789abcdef"@[(b[i] % 16) as int],
{
    law_hex_digits((b[i] / 16) as int);
    law_hex_digits((b[i] % 16) as int);
    assert((2 * i) / 2 == i && (2 * i + 1) / 2 == i);
}

/// A byte of a letter, a digit or one of four signs stands for itself; any other is written as a
/// percent sign and two digits. The bytes follow one another.
pub proof fn law_percent_bytes(a: Seq<u8>, b: u8)
    ensures
        escaping::percent_bytes(a.push(b)) == escaping::percent_bytes(a) + escaping::percent_byte(
            b,
        ),
        b == '-' as u8 || b == '.' as u8 || b == '_' as u8 || b == '~' as u8 || '0' as u8 <= b
            <= '9' as u8 || 'a' as u8 <= b <= 'z' as u8 || 'A' as u8 <= b <= 'Z' as u8
            ==> escaping::percent_byte(b) == seq![b as char],
        !(b == '-' as u8 || b == '.' as u8 || b == '_' as u8 || b == '~' as u8 || '0' as u8 <= b
            <= '9' as u8 || 'a' as u8 <= b <= 'z' as u8 || 'A' as u8 <= b <= 'Z' as u8)
            ==> escaping::percent_byte(b) == seq![
            '%',
            "0123456789ABCDEF"@[(b / 16) as int],
            "0123456789ABCDEF"@[(b % 16) as int],
        ],
{
    assert(a.push(b).drop_last() =~= a);
    law_hex_digits((b / 16) as int);
    law_hex_digits((b % 16) as int);
}

/// A percent-encoded text has no character but letters, digits, the four signs and percent signs.
pub proof fn law_percent_text(s: Seq<char>, x: char)
    requires
        x == '&' || x == '=' || x == '#' || x == '/' || x == ' ' || x == '?' || x == ':',
    ensures
        !escaping::percent_encoded(s).contains(x),
{
    lemma_percent_chars(encode_utf8(s));
    let t = escaping::percent_encoded(s);
    if t.contains(x) {
        let i = choose|i: int| 0 <= i < t.len() && t[i] == x;
        assert(percent_char(t[i]));
    }
}

/// True of the characters of a percent-encoded text.
spec fn percent_char(c: char) -> bool {
    ||| '0' <= c <= '9'
    ||| 'a' <= c <= 'z'
    ||| 'A' <= c <= 'Z'
    ||| c == '-' || c == '.' || c == '_' || c == '~' || c == '%'
}

proof fn lemma_percent_chars(b: Seq<u8>)
    ensures
        forall|i: int|
            0 <= i < escaping::percent_bytes(b).len() ==> percent_char(
                #[trigger] escaping::percent_bytes(b)[i],
            ),
    decreases b.len(),
{
    if b.len() > 0 {
        lemma_percent_chars(b.drop_last());
        let front = escaping::percent_bytes(b.drop_last());
        let x = b.last();
        let back = escaping::percent_byte(x);
        assert forall|i: int| 0 <= i < back.len() implies percent_char(#[trigger] back[i]) by {}
        assert forall|i: int|
            0 <= i < escaping::percent_bytes(b).len() implies percent_char(
            #[trigger] escaping::percent_bytes(b)[i],
        ) by {
            if i < front.len() {
                assert(escaping::percent_bytes(b)[i] == front[i]);
            } else {
                assert(escaping::percent_bytes(b)[i] == back[i - front.len()]);
            }
        }
    }
}

/// What is percent-encoded is decoded to what it was.
pub proof fn law_percent_round_trip(s: Seq<char>)
    ensures
        escaping::percent_decoded(escaping::percent_encoded(s)) == Some(s),
{
    let b = encode_utf8(s);
    let t = escaping::percent_bytes(b);
    lemma_percent_chars(b);
    assert(is_ascii_chars(t)) by {
        assert forall|i: int| 0 <= i < t.len() implies '\0' <= #[trigger] t[i] <= '\u{7f}' by {
            assert(percent_char(t[i]));
        }
    }
    vstd::utf8::is_ascii_chars_encode_utf8(t);
    assert(encode_utf8(t) =~= as_bytes(t));
    lemma_unescaped(b, seq![]);
    assert(as_bytes(t) + Seq::<u8>::empty() =~= as_bytes(t));
    assert(b + escaping::unescaped_bytes(Seq::<u8>::empty()) =~= b);
    vstd::utf8::encode_utf8_valid_utf8(s);
    vstd::utf8::encode_utf8_decode_utf8(s);
}

/// The characters of an ASCII text as bytes.
spec fn as_bytes(s: Seq<char>) -> Seq<u8> {
    Seq::new(s.len(), |i: int| s[i] as u8)
}

proof fn lemma_unescaped(b: Seq<u8>, rest: Seq<u8>)
    ensures
        escaping::unescaped_bytes(as_bytes(escaping::percent_bytes(b)) + rest) == b
            + escaping::unescaped_bytes(rest),
    decreases b.len(),
{
    if b.len() == 0 {
        assert(as_bytes(escaping::percent_bytes(b)) + rest =~= rest);
        assert(b + escaping::unescaped_bytes(rest) =~= escaping::unescaped_bytes(rest));
    } else {
        let x = b.last();
        let front = escaping::percent_bytes(b.drop_last());
        let back = escaping::percent_byte(x);
        let tail = as_bytes(back) + rest;
        assert(as_bytes(escaping::percent_bytes(b)) + rest =~= as_bytes(front) + tail);
        lemma_unescaped(b.drop_last(), tail);
        lemma_unescaped_byte(x, rest);
        assert(b.drop_last() + (seq![x] + escaping::unescaped_bytes(rest)) =~= b
            + escaping::unescaped_bytes(rest));
    }
}

proof fn lemma_unescaped_byte(x: u8, rest: Seq<u8>)
    ensures
        escaping::unescaped_bytes(as_bytes(escaping::percent_byte(x)) + rest) == seq![x]
            + escaping::unescaped_bytes(rest),
{
    let t = escaping::percent_byte(x);
    let all = as_bytes(t) + rest;
    if escaping::unreserved(x) {
        assert(all[0] == x);
        assert(x != '%' as u8);
        assert(all.skip(1) =~= rest);
    } else {
        let h = (x / 16) as int;
        let l = (x % 16) as int;
        assert(t.len() == 3);
        assert(all[0] == '%' as u8);
        assert(all[1] == t[1] as u8 && all[2] == t[2] as u8);
        lemma_hex_digit(h);
        lemma_hex_digit(l);
        assert(all.skip(3) =~= rest);
        assert(16 * h + l == x);
    }
}

proof fn lemma_hex_digit(d: int)
    requires
        0 <= d < 16,
    ensures
        escaping::hex_digit(escaping::upper_hex(d) as u8) == Some(d),
{
}

/// In a regular expression each of the special characters stands behind a backslash, and every
/// other character for itself.
pub proof fn law_regex_literal(a: Seq<char>, c: char, b: Seq<char>)
    ensures
        ({
            let whole = escaping::regex_literal(a + seq![c] + b);
            let x = escaping::regex_literal(a);
            let y = escaping::regex_literal(b);
            &&& "\\.+*?()|[]{}^$#&-~"@.contains(c) ==> whole == x + seq!['\\', c] + y
            &&& !"\\.+*?()|[]{}^$#&-~"@.contains(c) ==> whole == x + seq![c] + y
        }),
{
    let f = escaping::regex_char();
    texts::law_expanded(a + seq![c], b, c, f);
    texts::law_expanded(a, seq![c], c, f);
    let z = "\\.+*?()|[]{}^$#&-~"@;
    reveal_strlit("\\.+*?()|[]{}^$#&-~");
    assert(z.len() == 18);
    assert(z[0] == '\\' && z[1] == '.' && z[2] == '+' && z[3] == '*' && z[4] == '?' && z[5] == '('
        && z[6] == ')' && z[7] == '|' && z[8] == '[' && z[9] == ']' && z[10] == '{' && z[11] == '}'
        && z[12] == '^' && z[13] == '$' && z[14] == '#' && z[15] == '&' && z[16] == '-' && z[17]
        == '~');
    assert(z.contains(c) <==> escaping::regex_special(c)) by {
        if escaping::regex_special(c) {
            assert(exists|i: int| 0 <= i < z.len() && z[i] == c);
        }
    }
}

// Settings.

/// Of the values under one name the last counts, and values under other names do not.
pub proof fn law_values(vars: Seq<(String, String)>, v: (String, String), name: Seq<char>)
    ensures
        v.0@ == name ==> config::value_of(vars.push(v), name) == Some(v.1@),
        v.0@ != name ==> config::value_of(vars.push(v), name) == config::value_of(vars, name),
        config::value_of(seq![], name) is None,
{
    assert(vars.push(v).drop_last() =~= vars);
}

/// A switch is on for four words, and off for any other and without a value.
pub proof fn law_switches(v: Seq<char>)
    ensures
        config::switched_on(Some("1"@)),
        config::switched_on(Some("true"@)),
        config::switched_on(Some("TRUE"@)),
        config::switched_on(Some("yes"@)),
        v != "1"@ && v != "true"@ && v != "TRUE"@ && v != "yes"@ ==> !config::switched_on(Some(v)),
        !config::switched_on(None),
{
}

/// A default stands in for a value that is missing, and only so; an empty value, or a blank one,
/// counts as missing where that is asked for.
pub proof fn law_defaults(v: Seq<char>, d: Seq<char>)
    ensures
        config::or_default(Some(v), d) == v,
        config::or_default(None, d) == d,
        v.len() > 0 ==> config::non_empty(Some(v)) == Some(v),
        config::non_empty(Some(Seq::<char>::empty())) is None,
        config::non_empty(None) is None,
        texts::all_in(v, text::white_class()) ==> config::non_blank(Some(v)) is None,
        v.len() > 0 && !text::is_white(v[0]) && !text::is_white(v.last()) ==> config::non_blank(
            Some(v),
        ) == Some(v),
        config::non_blank(None) is None,
{
    if texts::all_in(v, text::white_class()) {
        let e = Seq::<char>::empty();
        texts::law_trimmed(v, e, e);
        assert(v + e + e =~= v);
    }
    if v.len() > 0 && !text::is_white(v[0]) && !text::is_white(v.last()) {
        let e = Seq::<char>::empty();
        texts::law_trimmed(e, v, e);
        assert(e + v + e =~= v);
    }
}

/// The largest file is as many megabytes as the setting says, and fifty without a number.
pub proof fn law_largest_file(n: nat, s: Seq<char>)
    ensures
        n <= u64::MAX ==> config::max_bytes(Some(numbers::numeral(n))) == n * 1048576,
        config::max_bytes(None) == 50 * 1048576,
        numbers::unsigned_value(s, u64::MAX as nat) is None ==> config::max_bytes(Some(s)) == 50
            * 1048576,
{
    law_numbers_are_read_back(n, u64::MAX as nat, s, 0);
}

/// The ids of the administrators are the numbers of the list, in order, with or without space
/// around them; what is no number is passed over.
pub proof fn law_administrators(list: Seq<Seq<char>>, n: i64, w: Seq<char>)
    requires
        texts::all_in(w, text::white_class()),
    ensures
        config::ids_in(list.push(w + numbers::signed_numeral(n as int) + w)) == config::ids_in(
            list,
        ).push(n),
        config::ids_in(list.push(w)) == config::ids_in(list),
        config::ids_in(seq![]) == Seq::<i64>::empty(),
{
    let t = numbers::signed_numeral(n as int);
    let m = if n < 0 {
        (-(n as int)) as nat
    } else {
        n as nat
    };
    numbers::law_numeral_round_trip(m);
    let u = numbers::numeral(m);
    assert(text::is_digit(u[0]) && text::is_digit(u.last()));
    texts::law_space(u[0]);
    texts::law_space(u.last());
    texts::law_space('-');
    assert(t.last() == u.last());
    texts::law_trimmed(w, t, w);
    law_numbers_are_read_back(m, i64::MAX as nat, t, 0);
    assert(list.push(w + t + w).drop_last() =~= list);
    assert(list.push(w).drop_last() =~= list);
    let e = Seq::<char>::empty();
    texts::law_trimmed(w, e, e);
    assert(w + e + e =~= w);
    law_numbers_are_read_back(0, i64::MAX as nat, e, 0);
}

// Cookies.

/// The value of a cookie loses the quotes around it, and each backslash that stands before another
/// character.
pub proof fn law_cookie_values(s: Seq<char>, c: char, i: int)
    ensures
        cookies::unwrapped(seq!['"'] + s + seq!['"']) == s,
        s.len() > 0 && s[0] != '"' ==> cookies::unwrapped(s) == s,
        0 <= i && i + 1 < s.len() && s[i] == '\\' ==> cookies::unescaped_from(s, i) == seq![
            s[i + 1],
        ] + cookies::unescaped_from(s, i + 2),
        0 <= i < s.len() && s[i] != '\\' ==> cookies::unescaped_from(s, i) == seq![s[i]]
            + cookies::unescaped_from(s, i + 1),
        !s.contains('\\') ==> cookies::unescaped_from(s, 0) == s,
{
    let w = seq!['"'] + s + seq!['"'];
    assert(w.subrange(1, w.len() - 1) =~= s);
    if !s.contains('\\') {
        lemma_nothing_unescaped(s, 0);
        assert(s.skip(0) =~= s);
    }
}

proof fn lemma_nothing_unescaped(s: Seq<char>, i: int)
    requires
        !s.contains('\\'),
        0 <= i <= s.len(),
    ensures
        cookies::unescaped_from(s, i) == s.skip(i),
    decreases s.len() - i,
{
    if i < s.len() {
        assert(s.contains(s[i]));
        lemma_nothing_unescaped(s, i + 1);
        assert(s.skip(i) =~= seq![s[i]] + s.skip(i + 1));
    } else {
        assert(s.skip(i) =~= Seq::<char>::empty());
    }
}

/// A line of a jar gives its cookie where it is one of Wikimedia: its name, a sign of equality and
/// its value. Other lines give none.
pub proof fn law_jar_lines(name: Seq<char>, value: Seq<char>, rest: Seq<char>, line: Seq<char>)
    requires
        plain(name) && plain(value),
        rest.len() > 0 && !text::is_white(rest.last()),
    ensures
        text::holds(text::lowered(rest), "domain=\""@) && text::holds(
            text::lowered(rest),
            "wikimedia.org"@,
        ) ==> cookies::jar_cookie(
            "Set-Cookie3: "@ + name + seq!['='] + value + seq![';'] + rest,
        ) == Some(name + seq!['='] + value),
        line.len() > 0 && !text::is_white(line[0]) && line[0] != 'S' ==> cookies::jar_cookie(line)
            is None,
        line.len() == 0 ==> cookies::jar_cookie(line) is None,
{
    let p = "Set-Cookie3: "@;
    reveal_strlit("Set-Cookie3: ");
    reveal_strlit("=");
    assert("="@ =~= seq!['=']);
    let e = Seq::<char>::empty();
    let payload = name + seq!['='] + value + seq![';'] + rest;
    let s = p + name + seq!['='] + value + seq![';'] + rest;
    assert(s =~= p + payload);
    texts::law_trimmed(e, s, e);
    assert(e + s + e =~= s);
    assert(s.skip(p.len() as int) =~= payload);
    texts::law_begins_and_finishes(s, p, payload);
    if text::holds(text::lowered(rest), "domain=\""@) && text::holds(
        text::lowered(rest),
        "wikimedia.org"@,
    ) {
        let front = name + seq!['='] + value + seq![';'];
        lemma_held_behind(front, rest, "domain=\""@);
        lemma_held_behind(front, rest, "wikimedia.org"@);
        assert(front + rest =~= payload);
        let tail = value + seq![';'] + rest;
        assert(payload =~= name + seq!['='] + tail);
        lemma_plain(name);
        lemma_plain(value);
        texts::law_cut_first(name, '=', tail);
        texts::law_cut_first(value, ';', rest);
        texts::law_trimmed(e, name, e);
        texts::law_trimmed(e, value, e);
        assert(e + name + e =~= name);
        assert(e + value + e =~= value);
        law_cookie_values(value, 'a', 0);
    }
    if line.len() > 0 && !text::is_white(line[0]) && line[0] != 'S' {
        lemma_trimmed_start(line);
        if text::begins(text::trimmed(line), p) {
            assert(text::trimmed(line).take(13)[0] == 'S');
        }
    }
    if line.len() == 0 {
        texts::law_trimmed(e, e, e);
        assert(e + e + e =~= e);
        assert(line =~= e);
    }
}

/// True of the texts of letters and digits.
pub open spec fn plain(s: Seq<char>) -> bool {
    &&& s.len() > 0
    &&& forall|i: int|
        0 <= i < s.len() ==> 'a' <= #[trigger] s[i] <= 'z' || 'A' <= s[i] <= 'Z' || '0' <= s[i]
            <= '9'
}

proof fn lemma_plain(s: Seq<char>)
    requires
        plain(s),
    ensures
        !s.contains('=') && !s.contains(';') && !s.contains('\\'),
        s[0] != '"',
        !text::is_white(s[0]) && !text::is_white(s.last()),
{
    texts::law_space(s[0]);
    texts::law_space(s.last());
}

proof fn lemma_held_behind(front: Seq<char>, rest: Seq<char>, p: Seq<char>)
    requires
        text::holds(text::lowered(rest), p),
    ensures
        text::holds(text::lowered(front + rest), p),
{
    let i = choose|i: int| text::occurs_at(text::lowered(rest), p, i);
    let all = text::lowered(front + rest);
    let k = front.len() as int;
    assert(all =~= text::lowered(front) + text::lowered(rest));
    assert(all.subrange(k + i, k + i + p.len()) =~= text::lowered(rest).subrange(i, i + p.len()));
    assert(text::occurs_at(all, p, k + i));
}

/// A text that begins with no space keeps its first character.
proof fn lemma_trimmed_start(s: Seq<char>)
    requires
        s.len() > 0,
        !text::is_white(s[0]),
    ensures
        text::trimmed(s).len() > 0,
        text::trimmed(s)[0] == s[0],
{
    let p = text::white_class();
    let e = Seq::<char>::empty();
    texts::law_leading_dropped(e, s, p);
    assert(e + s =~= s);
    lemma_trailing_start(s, p);
}

proof fn lemma_trailing_start(s: Seq<char>, p: spec_fn(char) -> bool)
    requires
        s.len() > 0,
        !p(s[0]),
    ensures
        text::drop_trailing(s, p).len() > 0,
        text::drop_trailing(s, p)[0] == s[0],
    decreases s.len(),
{
    if p(s.last()) {
        lemma_trailing_start(s.drop_last(), p);
    }
}

/// The cookies of a jar come in the order of its lines; lines without one are passed over.
pub proof fn law_jar_order(lines: Seq<Seq<char>>, line: Seq<char>)
    ensures
        cookies::jar_cookie(line) is Some ==> cookies::jar_cookies(lines.push(line))
            == cookies::jar_cookies(lines).push(cookies::jar_cookie(line)->0),
        cookies::jar_cookie(line) is None ==> cookies::jar_cookies(lines.push(line))
            == cookies::jar_cookies(lines),
        cookies::jar_cookies(seq![]) == Seq::<Seq<char>>::empty(),
{
    assert(lines.push(line).drop_last() =~= lines);
}

/// A header is the cookies of the jar with a semicolon and a blank between them; without any, the
/// text itself is one where it is a single line with a sign of equality.
pub proof fn law_jar_header(jar: Seq<char>)
    ensures
        ({
            let list = cookies::jar_cookies(text::parts(jar, '\n'));
            let t = text::trimmed(jar);
            let header = cookies::jar_header(jar);
            &&& list.len() > 0 ==> header == Some(text::joined(list, seq![';', ' ']))
            &&& list.len() == 0 && t.contains('=') && !t.contains('\n') ==> header == Some(t)
            &&& list.len() == 0 && (!t.contains('=') || t.contains('\n')) ==> header is None
        }),
{
    reveal_strlit("; ");
    assert("; "@ =~= seq![';', ' ']);
}

// The command line.

/// A search for a category asks for categories. Any other input asks for files, with what it says
/// and with the two switches, which only ever add.
pub proof fn law_command_line(words: Seq<char>, bypass: bool, by_size: bool)
    ensures
        ({
            let all = cli::cli_search(words, bypass, by_size);
            match parser::intent_of(words) {
                models::IntentView::CategorySearch(name) => all == CliView::Categories(name),
                models::IntentView::FileSearch(q) => all is Files && ({
                    let r = all->Files_0;
                    &&& r.bypass_telegram_limit == (q.bypass_telegram_limit || bypass)
                    &&& r.sort_by_size == (q.sort_by_size || by_size)
                    &&& r == (models::QueryView {
                        bypass_telegram_limit: r.bypass_telegram_limit,
                        sort_by_size: r.sort_by_size,
                        ..q
                    })
                }),
                _ => all is Files,
            }
        }),
{
}

/// A file name keeps its length and its characters, but for the two that no name can hold.
pub proof fn law_local_names(name: Seq<char>, i: int)
    requires
        0 <= i < name.len(),
    ensures
        cli::local_name(name).len() == name.len(),
        name[i] == '/' || name[i] == '\0' ==> cli::local_name(name)[i] == '_',
        name[i] != '/' && name[i] != '\0' ==> cli::local_name(name)[i] == name[i],
{
}

/// Of the first files the pictures are shown, in order, each from its thumbnail where there is
/// one; the first picture without any address ends that.
pub proof fn law_shown_pictures(files: Seq<FileHit>, n: int)
    requires
        0 <= n < files.len(),
    ensures
        ({
            let before = cli::previews_of(files, n as nat);
            let after = cli::previews_of(files, (n + 1) as nat);
            let f = files[n];
            &&& !telegram::is_image(f) ==> after == before
            &&& !before.1 ==> after == before
            &&& telegram::is_image(f) && before.1 && f.thumb_url is Some ==> after == (
                before.0.push((f.thumb_url->0)@),
                true,
            )
            &&& telegram::is_image(f) && before.1 && f.thumb_url is None && f.url is Some ==> after
                == (before.0.push((f.url->0)@), true)
            &&& telegram::is_image(f) && before.1 && f.thumb_url is None && f.url is None ==> after
                == (before.0, false)
        }),
        cli::previews_of(files, 0) == (Seq::<Seq<char>>::empty(), true),
        cli::preview_count(n as nat) <= 5 && cli::preview_count(n as nat) <= n,
        n <= 5 ==> cli::preview_count(n as nat) == n,
        n > 5 ==> cli::preview_count(n as nat) == 5,
{
}

/// The first sound among the files is the one that is played.
pub proof fn law_first_sound(files: Seq<FileHit>, k: int)
    requires
        0 <= k < files.len(),
        files[k].audio(),
        forall|j: int| 0 <= j < k ==> !(#[trigger] files[j]).audio(),
    ensures
        cli::first_audio(files, 0) == Some(files[k]),
{
    lemma_first_sound(files, 0, k);
}

proof fn lemma_first_sound(files: Seq<FileHit>, i: int, k: int)
    requires
        0 <= i <= k < files.len(),
        files[k].audio(),
        forall|j: int| 0 <= j < k ==> !(#[trigger] files[j]).audio(),
    ensures
        cli::first_audio(files, i) == Some(files[k]),
    decreases k - i,
{
    if i < k {
        assert(!files[i].audio());
        lemma_first_sound(files, i + 1, k);
    }
}

/// Without a sound none is played.
pub proof fn law_no_sound(files: Seq<FileHit>, i: int)
    requires
        0 <= i <= files.len(),
        forall|j: int| 0 <= j < files.len() ==> !(#[trigger] files[j]).audio(),
    ensures
        cli::first_audio(files, i) is None,
    decreases files.len() - i,
{
    if i < files.len() {
        assert(!files[i].audio());
        law_no_sound(files, i + 1);
    }
}

} // verus!
