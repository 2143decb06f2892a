//! Laws on how a message is read: its tokens, what each of them asks for, and the intent.

use vstd::prelude::*;
use crate::laws::texts;
use crate::models;
use crate::models::{FileType, SizeFilter, SizeOp};
use crate::numbers;
use crate::parser;
use crate::rounding;
use crate::text;

verus! {

// Tokens.

proof fn lemma_run_behind(s: Seq<char>, from: int, at: int)
    requires
        0 <= from <= at <= s.len(),
    ensures
        text::run_end(s, false, at) == from + text::run_end(s.skip(from), false, at - from),
    decreases s.len() - at,
{
    if at < s.len() {
        assert(s.skip(from)[at - from] == s[at]);
        lemma_run_behind(s, from, at + 1);
    }
}

proof fn lemma_position_behind(s: Seq<char>, x: char, from: int, at: int)
    requires
        0 <= from <= at <= s.len(),
    ensures
        text::position(s, x, at) == from + text::position(s.skip(from), x, at - from),
    decreases s.len() - at,
{
    if at < s.len() {
        assert(s.skip(from)[at - from] == s[at]);
        lemma_position_behind(s, x, from, at + 1);
    }
}

/// The tokens from a position on are those of what stands there.
proof fn lemma_tokens_behind(s: Seq<char>, from: int, at: int)
    requires
        0 <= from <= at <= s.len(),
    ensures
        parser::tokens_from(s, at) == parser::tokens_from(s.skip(from), at - from),
    decreases s.len() - at,
{
    let t = s.skip(from);
    if at < s.len() {
        assert(t[at - from] == s[at]);
        if s[at] == '"' || s[at] == '\'' {
            lemma_position_behind(s, s[at], from, at + 1);
            text::lemma_position(s, s[at], at + 1);
        }
        assert(parser::quote_end(s, at) == from + parser::quote_end(t, at - from));
        let e = parser::quote_end(s, at);
        lemma_run_behind(s, from, at);
        text::lemma_run_stop(s, false, at);
        let r = text::run_end(s, false, at);
        if at < e && e < s.len() {
            assert(s.subrange(at + 1, e) =~= t.subrange(at + 1 - from, e - from));
            lemma_tokens_behind(s, from, e + 1);
        } else if at < r {
            assert(s.subrange(at, r) =~= t.subrange(at - from, r - from));
            lemma_tokens_behind(s, from, r);
        } else {
            lemma_tokens_behind(s, from, at + 1);
        }
    }
}

/// A quoted phrase is one token, without its quotes and the space in them, and then come the
/// tokens behind it.
pub proof fn law_quoted_token(mark: char, inside: Seq<char>, rest: Seq<char>)
    requires
        mark == '"' || mark == '\'',
        inside.len() > 0,
        !inside.contains(mark),
    ensures
        parser::tokens_of(seq![mark] + inside + seq![mark] + rest) == (if text::trimmed(
            inside,
        ).len() > 0 {
            seq![text::trimmed(inside)] + parser::tokens_of(rest)
        } else {
            parser::tokens_of(rest)
        }),
{
    let s = seq![mark] + inside + seq![mark] + rest;
    let e = inside.len() as int + 1;
    text::lemma_position(s, mark, 1);
    let p = text::position(s, mark, 1);
    assert(s[0] == mark);
    assert(s[e] == mark);
    if p < e {
        assert(inside[p - 1] == s[p]);
        assert(inside.contains(inside[p - 1]));
    }
    assert(p == e);
    assert(parser::quote_end(s, 0) == e);
    assert(s.subrange(1, e) =~= inside);
    lemma_tokens_behind(s, e + 1, e + 1);
    assert(s.skip(e + 1) =~= rest);
}

/// A word that does not begin with a quote is one token, whatever it holds, and then come the
/// tokens behind it.
pub proof fn law_word_token(w: Seq<char>, rest: Seq<char>)
    requires
        w.len() > 0,
        w[0] != '"' && w[0] != '\'',
        forall|i: int| 0 <= i < w.len() ==> !text::is_white(#[trigger] w[i]),
        rest.len() == 0 || text::is_white(rest[0]),
    ensures
        parser::tokens_of(w + rest) == seq![w] + parser::tokens_of(rest),
{
    let s = w + rest;
    let n = w.len() as int;
    assert(s[0] == w[0]);
    assert forall|k: int| 0 <= k < n implies !text::is_white(#[trigger] s[k]) by {
        assert(s[k] == w[k]);
    }
    if rest.len() > 0 {
        assert(s[n] == rest[0]);
    }
    lemma_run(s, 0, n);
    assert(s.subrange(0, n) =~= w);
    texts::law_trimmed(seq![], w, seq![]);
    assert(seq![] + w + seq![] =~= w);
    lemma_tokens_behind(s, n, n);
    assert(s.skip(n) =~= rest);
}

proof fn lemma_run(s: Seq<char>, from: int, to: int)
    requires
        0 <= from <= to <= s.len(),
        forall|k: int| from <= k < to ==> !text::is_white(#[trigger] s[k]),
        to < s.len() ==> text::is_white(s[to]),
    ensures
        text::run_end(s, false, from) == to,
    decreases to - from,
{
    if from < to {
        lemma_run(s, from + 1, to);
    }
}

/// Space before a token makes none, and a text without any has no token.
pub proof fn law_space_makes_no_token(c: char, rest: Seq<char>)
    requires
        text::is_white(c),
    ensures
        parser::tokens_of(seq![c] + rest) == parser::tokens_of(rest),
        parser::tokens_of(seq![]) == Seq::<Seq<char>>::empty(),
{
    let s = seq![c] + rest;
    assert(s[0] == c);
    assert(text::run_end(s, false, 0) == 0);
    lemma_tokens_behind(s, 1, 1);
    assert(s.skip(1) =~= rest);
}

// Intents.

/// True of the words that ask for help.
pub open spec fn help_word(t: Seq<char>) -> bool {
    t == "/start"@ || t == "/help"@ || t == "help"@
}

/// True of the words that ask for the preferences.
pub open spec fn settings_word(t: Seq<char>) -> bool {
    t == "/settings"@ || t == "/preferences"@ || t == "/prefs"@ || t == "settings"@ || t == "prefs"@
        || t == "preferences"@
}

/// True of the words that ask for the statistics.
pub open spec fn stats_word(t: Seq<char>) -> bool {
    t == "/stat"@ || t == "/stats"@ || t == "stat"@ || t == "stats"@
}

proof fn lemma_command_letters(t: Seq<char>)
    ensures
        help_word(t) ==> t.len() > 0 && !settings_word(t) && !stats_word(t),
        settings_word(t) ==> t.len() > 0 && !help_word(t) && !stats_word(t),
        stats_word(t) ==> t.len() > 0 && !help_word(t) && !settings_word(t),
        ""@.len() == 0,
{
    reveal_strlit("");
    reveal_strlit("/start");
    reveal_strlit("/help");
    reveal_strlit("help");
    reveal_strlit("/settings");
    reveal_strlit("/preferences");
    reveal_strlit("/prefs");
    reveal_strlit("settings");
    reveal_strlit("prefs");
    reveal_strlit("preferences");
    reveal_strlit("/stat");
    reveal_strlit("/stats");
    reveal_strlit("stat");
    reveal_strlit("stats");
    assert("/start"@.len() == 6 && "/start"@[4] == 'r');
    assert("/prefs"@.len() == 6 && "/prefs"@[1] == 'p');
    assert("/stats"@.len() == 6 && "/stats"@[1] == 's' && "/stats"@[4] == 't');
    assert("/help"@.len() == 5 && "/help"@[1] == 'h');
    assert("prefs"@.len() == 5 && "prefs"@[0] == 'p');
    assert("/stat"@.len() == 5 && "/stat"@[1] == 's');
    assert("stats"@.len() == 5 && "stats"@[0] == 's');
    assert("help"@.len() == 4 && "help"@[0] == 'h');
    assert("stat"@.len() == 4 && "stat"@[0] == 's');
    assert("/start"@[1] == 's' && "/help"@[0] == '/' && "/stat"@[0] == '/');
}

/// A message that is one of the words for help, preferences or statistics asks for these; one of
/// space asks for nothing; every other with a token asks for categories or files. Space around the
/// message does not count.
pub proof fn law_intents(input: Seq<char>)
    ensures
        ({
            let t = text::trimmed(input);
            let intent = parser::intent_of(input);
            &&& help_word(t) <==> intent is Help
            &&& settings_word(t) <==> intent is Preferences
            &&& stats_word(t) <==> intent is Stats
            &&& t.len() == 0 ==> intent is Empty
            &&& parser::tokens_of(t).len() > 0 && !help_word(t) && !settings_word(t)
                && !stats_word(t) && t.len() > 0 ==> intent is CategorySearch
                || intent is FileSearch
            &&& intent is FileSearch ==> intent->FileSearch_0 == parser::query_of(
                t,
                parser::tokens_of(t),
            )
        }),
{
    let t = text::trimmed(input);
    lemma_command_letters(t);
    if t.len() == 0 {
        assert(t =~= ""@);
    }
}

/// True of the words that stand for a category.
pub open spec fn category_word(w: Seq<char>) -> bool {
    ||| w == "c"@ || w == "category"@ || w == "kategorie"@ || w == "kat"@ || w == "k"@
    ||| w == "категория"@ || w == "катэгорыя"@ || w == "к"@ || w == "с"@
}

/// A message whose first token is a word for a category, with or without colons behind it and with
/// no name of its own, asks for the categories named by all later tokens: each stands whole in the
/// name, in order, with one blank between neighbours and nothing else.
pub proof fn law_category_search_takes_all_tokens(
    input: Seq<char>,
    word: Seq<char>,
    colons: Seq<char>,
    k: int,
)
    requires
        ({
            let t = text::trimmed(input);
            let tokens = parser::tokens_of(t);
            &&& !help_word(t) && !settings_word(t) && !stats_word(t) && t.len() > 0
            &&& tokens.len() > 1
            &&& parser::alias(tokens[0]) == word + colons
            &&& category_word(word)
            &&& forall|i: int| 0 <= i < colons.len() ==> #[trigger] colons[i] == ':'
            &&& parser::category_value(tokens[0]) is None || (parser::category_value(
                tokens[0],
            )->0).1.len() == 0
            &&& 1 <= k < tokens.len()
        }),
    ensures
        ({
            let tokens = parser::tokens_of(text::trimmed(input));
            let later = tokens.skip(1);
            let intent = parser::intent_of(input);
            let front = if k == 1 {
                Seq::<char>::empty()
            } else {
                text::joined(later.take(k - 1), seq![' ']) + seq![' ']
            };
            let back = if k + 1 == tokens.len() {
                Seq::<char>::empty()
            } else {
                seq![' '] + text::joined(later.skip(k), seq![' '])
            };
            &&& intent is CategorySearch
            &&& intent->CategorySearch_0 == front + tokens[k] + back
            &&& intent->CategorySearch_0.len() == texts::total_length(later) + later.len() - 1
        }),
{
    let t = text::trimmed(input);
    let tokens = parser::tokens_of(t);
    let later = tokens.skip(1);
    lemma_command_letters(t);
    reveal_strlit(" ");
    assert(" "@ =~= seq![' ']);
    lemma_category_words_end(word);
    texts::law_trailing_dropped(word, colons, text::just(':'));
    texts::law_joined_holds_each(later, seq![' '], k - 1);
    texts::law_joined_length(later, seq![' ']);
    assert(later[k - 1] == tokens[k]);
    assert((later.len() - 1) * 1 == later.len() - 1);
}

proof fn lemma_category_words_end(w: Seq<char>)
    requires
        category_word(w),
    ensures
        w.len() > 0,
        w.last() != ':',
        parser::category_word(w),
{
    reveal_strlit("c");
    reveal_strlit("category");
    reveal_strlit("kategorie");
    reveal_strlit("kat");
    reveal_strlit("k");
    reveal_strlit("категория");
    reveal_strlit("катэгорыя");
    reveal_strlit("к");
    reveal_strlit("с");
}

/// A first token with a category word, a colon and a name asks for the categories of that name.
pub proof fn law_category_search_with_name(input: Seq<char>, word: Seq<char>, name: Seq<char>)
    requires
        ({
            let t = text::trimmed(input);
            let tokens = parser::tokens_of(t);
            &&& !help_word(t) && !settings_word(t) && !stats_word(t) && t.len() > 0
            &&& tokens.len() > 0
            &&& tokens[0] == word + seq![':'] + name
            &&& word == "c"@ || word == "category"@ || word == "kategorie"@ || word == "kat"@
            &&& text::trimmed(name).len() > 0
            &&& !name.contains('\n')
        }),
    ensures
        parser::intent_of(input) == models::IntentView::CategorySearch(
            parser::category_name(text::trimmed(name)),
        ),
{
    let t = text::trimmed(input);
    let tokens = parser::tokens_of(t);
    lemma_command_letters(t);
    reveal_strlit("c");
    reveal_strlit("category");
    reveal_strlit("kategorie");
    reveal_strlit("kat");
    lemma_plain_word(word);
    texts::law_cut_first(word, ':', name);
    lemma_tail_value(name);
}

/// A word of small ASCII letters has nothing to fold or trim.
proof fn lemma_plain_word(w: Seq<char>)
    requires
        w.len() > 0,
        forall|i: int| 0 <= i < w.len() ==> 'a' <= #[trigger] w[i] <= 'z',
    ensures
        !w.contains(':'),
        parser::folded(w) == w,
        parser::alias(w) == w,
        text::lowered(w) == w,
{
    assert(parser::folded(w) =~= w);
    texts::law_trimmed(seq![], w, seq![]);
    assert(seq![] + w + seq![] =~= w);
    assert(text::lowered(w) =~= w);
}

proof fn lemma_tail_value(rest: Seq<char>)
    requires
        rest.len() > 0,
        !rest.contains('\n'),
    ensures
        parser::tail_value(rest) == Some(text::trimmed(rest)),
{
    texts::law_cut_last(seq![], '\n', rest);
    assert(text::last_position(rest, '\n', rest.len() as int) < 0);
    lemma_no_last(rest, rest.len() as int);
}

proof fn lemma_no_last(rest: Seq<char>, to: int)
    requires
        0 <= to <= rest.len(),
        !rest.contains('\n'),
    ensures
        text::last_position(rest, '\n', to) == -1,
    decreases to,
{
    if to > 0 {
        assert(rest.contains(rest[to - 1]));
        lemma_no_last(rest, to - 1);
    }
}

// What the tokens of a search ask for.

/// A search without tokens asks for nothing.
pub proof fn law_empty_search(raw: Seq<char>)
    ensures
        ({
            let q = parser::query_of(raw, seq![]);
            &&& q.raw == raw
            &&& q.terms.len() == 0 && q.size_filters.len() == 0
            &&& q.file_type is None && q.extension is None && q.category is None
            &&& q.user is None && q.date is None
            &&& !q.links_flag && !q.image_previews_flag && !q.sort_by_size
            &&& !q.bypass_telegram_limit
        }),
{
}

/// A search is read token by token: what the first asks for is added to the empty search, and all
/// others follow.
pub proof fn law_search_begins_with_first_token(raw: Seq<char>, tokens: Seq<Seq<char>>)
    ensures
        parser::query_of(raw, tokens) == parser::query_from(
            parser::query_of(raw, seq![]),
            tokens,
            0,
        ),
        parser::query_from(parser::query_of(raw, seq![]), tokens, tokens.len() as int)
            == parser::query_of(raw, seq![]),
{
}

/// The flags: each switches on what it names, and nothing else, and takes one token.
pub proof fn law_flag_tokens(q: models::QueryView, tokens: Seq<Seq<char>>, i: int)
    requires
        0 <= i < tokens.len(),
    ensures
        ({
            let lower = parser::alias(tokens[i]);
            let after = parser::query_from(q, tokens, i);
            &&& lower == "-links"@ || lower == "–links"@ || lower == "—links"@ ==> after
                == parser::query_from(
                models::QueryView { links_flag: true, ..q },
                tokens,
                i + 1,
            )
            &&& (lower == "-img"@ || lower == "–img"@ || lower == "—img"@) && q.file_type is None
                ==> after == parser::query_from(
                models::QueryView {
                    image_previews_flag: true,
                    file_type: Some(FileType::Images),
                    ..q
                },
                tokens,
                i + 1,
            )
            &&& (lower == "-img"@ || lower == "–img"@ || lower == "—img"@) && q.file_type is Some
                ==> after == parser::query_from(
                models::QueryView { image_previews_flag: true, ..q },
                tokens,
                i + 1,
            )
            &&& lower == "--sort-size"@ || lower == "--sort-by-size"@ || lower == "sort:size"@
                ==> after == parser::query_from(
                models::QueryView { sort_by_size: true, ..q },
                tokens,
                i + 1,
            )
            &&& lower == "--bypass-telegram-limit"@ ==> after == parser::query_from(
                models::QueryView { bypass_telegram_limit: true, ..q },
                tokens,
                i + 1,
            )
        }),
{
    lemma_flag_letters();
}

proof fn lemma_flag_letters()
    ensures
        "-links"@.len() == 6 && "-links"@[1] == 'l' && "-links"@[0] == '-',
        "–links"@.len() == 6 && "–links"@[1] == 'l' && "–links"@[0] == '–',
        "—links"@.len() == 6 && "—links"@[1] == 'l' && "—links"@[0] == '—',
        "-img"@.len() == 4 && "-img"@[0] == '-',
        "–img"@.len() == 4 && "–img"@[0] == '–',
        "—img"@.len() == 4 && "—img"@[0] == '—',
        "--sort-size"@.len() == 11,
        "--sort-by-size"@.len() == 14,
        "sort:size"@.len() == 9,
        "--bypass-telegram-limit"@.len() == 23,
{
    reveal_strlit("-links");
    reveal_strlit("–links");
    reveal_strlit("—links");
    reveal_strlit("-img");
    reveal_strlit("–img");
    reveal_strlit("—img");
    reveal_strlit("--sort-size");
    reveal_strlit("--sort-by-size");
    reveal_strlit("sort:size");
    reveal_strlit("--bypass-telegram-limit");
}

/// A decimal number whose bytes are a whole number gives that number.
proof fn lemma_exact_bytes(whole: Seq<char>, fraction: Seq<char>, doublings: nat, bytes: nat)
    requires
        bytes < 0x20_0000_0000_0000,
        (numbers::number_of(whole) * rounding::ten_to(fraction.len()) + numbers::number_of(
            fraction,
        )) * rounding::two_to(doublings) == bytes * rounding::ten_to(fraction.len()),
    ensures
        parser::byte_count(whole, fraction, doublings) == bytes,
{
    lemma_ten_positive(fraction.len());
    rounding::law_exact_quotients(bytes, rounding::ten_to(fraction.len()));
}

proof fn lemma_ten_positive(n: nat)
    ensures
        rounding::ten_to(n) > 0,
    decreases n,
{
    if n > 0 {
        lemma_ten_positive((n - 1) as nat);
    }
}

/// The bytes of one of a unit.
pub open spec fn unit_bytes(unit: Seq<char>) -> Option<nat> {
    let u = text::lowered(unit);
    if u == ""@ || u == "b"@ {
        Some(1)
    } else if u == "k"@ || u == "kb"@ {
        Some(1024)
    } else if u == "m"@ || u == "mb"@ {
        Some(1024 * 1024)
    } else if u == "g"@ || u == "gb"@ {
        Some(1024 * 1024 * 1024)
    } else if u == "t"@ || u == "tb"@ {
        Some(1024 * 1024 * 1024 * 1024)
    } else {
        None
    }
}

/// A decimal number and a unit give so many times the bytes of the unit, as a bound above for `<`
/// and as a bound below for `>`. The number is that of its digits, less by ten times for each digit
/// behind the point.
pub proof fn law_written_size(w: parser::WrittenSize, bytes: nat)
    requires
        forall|i: int| 0 <= i < w.whole.len() ==> '0' <= #[trigger] w.whole[i] <= '9',
        forall|i: int| 0 <= i < w.fraction.len() ==> '0' <= #[trigger] w.fraction[i] <= '9',
        unit_bytes(w.unit) is Some,
        bytes < 0x20_0000_0000_0000,
        (numbers::number_of(w.whole) * rounding::ten_to(w.fraction.len()) + numbers::number_of(
            w.fraction,
        )) * unit_bytes(w.unit)->0 == bytes * rounding::ten_to(w.fraction.len()),
    ensures
        parser::size_filter(w) == Some(
            (SizeFilter {
                op: if w.greater {
                    SizeOp::GreaterThan
                } else {
                    SizeOp::LessThan
                },
                bytes: bytes as u64,
            }),
        ),
{
    rounding::law_unit_powers();
    lemma_unit_letters();
    let d = parser::unit_doublings(w.unit)->0;
    assert(rounding::two_to(d) == unit_bytes(w.unit)->0);
    lemma_exact_bytes(w.whole, w.fraction, d, bytes);
}

proof fn lemma_unit_letters()
    ensures
        ""@.len() == 0,
        "b"@.len() == 1 && "b"@[0] == 'b',
        "k"@.len() == 1 && "k"@[0] == 'k',
        "m"@.len() == 1 && "m"@[0] == 'm',
        "g"@.len() == 1 && "g"@[0] == 'g',
        "t"@.len() == 1 && "t"@[0] == 't',
        "kb"@.len() == 2 && "kb"@[0] == 'k' && "kb"@[1] == 'b',
        "mb"@.len() == 2 && "mb"@[0] == 'm' && "mb"@[1] == 'b',
        "gb"@.len() == 2 && "gb"@[0] == 'g' && "gb"@[1] == 'b',
        "tb"@.len() == 2 && "tb"@[0] == 't' && "tb"@[1] == 'b',
{
    reveal_strlit("");
    reveal_strlit("b");
    reveal_strlit("k");
    reveal_strlit("kb");
    reveal_strlit("m");
    reveal_strlit("mb");
    reveal_strlit("g");
    reveal_strlit("gb");
    reveal_strlit("t");
    reveal_strlit("tb");
}

/// The digits of a number stand for it: the number grows by ten times with each digit behind it.
pub proof fn law_number_of_digits(s: Seq<char>, c: char)
    requires
        '0' <= c <= '9',
    ensures
        numbers::number_of(s.push(c)) == 10 * numbers::number_of(s) + (c as nat - '0' as nat),
        numbers::number_of(seq![]) == 0,
{
    assert(s.push(c).drop_last() =~= s);
}

} // verus!
