//! Laws on what each kind of token adds to a search.

use vstd::prelude::*;
use vstd::utf8::*;
use crate::laws::inputs;
use crate::laws::texts;
use crate::models;
use crate::models::{FileType, SizeFilter, SizeOp};
use crate::numbers;
use crate::parser;
use crate::rounding;
use crate::text;

verus! {

/// True of a text of small ASCII letters.
pub open spec fn small_letters(w: Seq<char>) -> bool {
    w.len() > 0 && forall|i: int| 0 <= i < w.len() ==> 'a' <= #[trigger] w[i] <= 'z'
}

/// True of a text of ASCII characters without space.
pub open spec fn graphic(w: Seq<char>) -> bool {
    w.len() > 0 && forall|i: int| 0 <= i < w.len() ==> '!' <= #[trigger] w[i] <= '~'
}

/// True of a text of ASCII digits.
pub open spec fn digits(w: Seq<char>) -> bool {
    w.len() > 0 && forall|i: int| 0 <= i < w.len() ==> '0' <= #[trigger] w[i] <= '9'
}

proof fn lemma_graphic_alias(w: Seq<char>)
    requires
        graphic(w),
    ensures
        text::trimmed(w) == w,
        parser::alias(w) == text::lowered(w),
        models::word(w) == text::lowered(w),
{
    texts::law_trimmed(seq![], w, seq![]);
    assert(seq![] + w + seq![] =~= w);
}

proof fn lemma_small(w: Seq<char>)
    requires
        small_letters(w),
    ensures
        graphic(w),
        text::lowered(w) == w,
        parser::alias(w) == w,
        parser::folded(w) == w,
        !w.contains(':'),
        text::cut_first(w, ':') is None,
{
    assert(text::lowered(w) =~= w);
    assert(parser::folded(w) =~= w);
    lemma_graphic_alias(w);
    texts::law_cut_first(w, ':', seq![]);
}

/// The known extensions are short words without a colon.
proof fn lemma_extensions_have_no_colon(e: Seq<char>)
    requires
        parser::known_extension(e),
    ensures
        !e.contains(':'),
        e.len() <= 4,
{
    reveal_strlit("gif");
    reveal_strlit("jpeg");
    reveal_strlit("jpg");
    reveal_strlit("png");
    reveal_strlit("svg");
    reveal_strlit("tif");
    reveal_strlit("tiff");
    reveal_strlit("webp");
    reveal_strlit("xcf");
    reveal_strlit("avif");
    reveal_strlit("bmp");
    reveal_strlit("flac");
    reveal_strlit("mid");
    reveal_strlit("midi");
    reveal_strlit("mp3");
    reveal_strlit("oga");
    reveal_strlit("ogg");
    reveal_strlit("opus");
    reveal_strlit("wav");
    reveal_strlit("mpeg");
    reveal_strlit("mpg");
    reveal_strlit("ogv");
    reveal_strlit("webm");
    reveal_strlit("mp4");
    reveal_strlit("djvu");
    reveal_strlit("pdf");
    reveal_strlit("stl");
    let l = text::lowered(e);
    assert(l.len() == e.len());
    if e.contains(':') {
        let i = choose|i: int| 0 <= i < e.len() && e[i] == ':';
        assert(l[i] == ':');
    }
}

/// The known extensions in lower case, by their first letters.
#[verifier::rlimit(40)]
proof fn lemma_extension_letters(e: Seq<char>)
    requires
        parser::known_extension(e),
        text::lowered(e) == e,
    ensures
        e.len() == 3 || e.len() == 4,
        e.len() == 3 ==> e[0] != 'k' && e[0] != 'd' && e[0] != 'u' && e[0] != 'c',
        e.len() == 4 && e[0] == 'd' ==> e[1] == 'j',
        e.len() == 4 ==> e[0] != 's' && e[0] != 'u' && e[0] != 'c' && e[0] != 'k',
        e[0] != '-' && e[0] != '–' && e[0] != '—' && e[0] != '.',
{
    reveal_strlit("gif");
    reveal_strlit("jpeg");
    reveal_strlit("jpg");
    reveal_strlit("png");
    reveal_strlit("svg");
    reveal_strlit("tif");
    reveal_strlit("tiff");
    reveal_strlit("webp");
    reveal_strlit("xcf");
    reveal_strlit("avif");
    reveal_strlit("bmp");
    reveal_strlit("flac");
    reveal_strlit("mid");
    reveal_strlit("midi");
    reveal_strlit("mp3");
    reveal_strlit("oga");
    reveal_strlit("ogg");
    reveal_strlit("opus");
    reveal_strlit("wav");
    reveal_strlit("mpeg");
    reveal_strlit("mpg");
    reveal_strlit("ogv");
    reveal_strlit("webm");
    reveal_strlit("mp4");
    reveal_strlit("djvu");
    reveal_strlit("pdf");
    reveal_strlit("stl");
}

/// True of the words before a colon, and alone, that are taken up here.
pub open spec fn field_word(w: Seq<char>) -> bool {
    ||| w == "date"@ || w == "datum"@ || w == "d"@
    ||| w == "size"@ || w == "s"@ || w == "groesse"@ || w == "g"@
    ||| w == "user"@ || w == "u"@ || w == "benutzer"@
    ||| w == "c"@ || w == "category"@ || w == "kategorie"@ || w == "kat"@
}

#[verifier::rlimit(40)]
proof fn lemma_field_words(w: Seq<char>)
    requires
        field_word(w),
    ensures
        small_letters(w),
        parser::family_of(w) is None,
        w != "sort"@,
        !parser::known_extension(w),
{
    reveal_strlit("date");
    reveal_strlit("datum");
    reveal_strlit("d");
    reveal_strlit("size");
    reveal_strlit("s");
    reveal_strlit("groesse");
    reveal_strlit("g");
    reveal_strlit("user");
    reveal_strlit("u");
    reveal_strlit("benutzer");
    reveal_strlit("c");
    reveal_strlit("category");
    reveal_strlit("kategorie");
    reveal_strlit("kat");
    reveal_strlit("sort");
    if parser::family_of(w) is Some {
        lemma_family_letters(w);
    }
    assert(text::lowered(w) =~= w);
    if parser::known_extension(w) {
        lemma_extension_letters(w);
    }
    assert(w[0] == 'd' || w[0] == 's' || w[0] == 'g' || w[0] == 'u' || w[0] == 'b' || w[0] == 'c'
        || w[0] == 'k');
    assert(w.len() == 1 || w.len() >= 3);
    assert(w.len() == 4 ==> w[0] == 'd' || w[1] == 'i' || w[0] == 'u');
}

/// The words of families by their letters.
#[verifier::rlimit(40)]
proof fn lemma_family_letters(w: Seq<char>)
    requires
        parser::family_of(w) is Some,
    ensures
        w.len() > 0,
        w.len() == 1 ==> w[0] == 'i' || w[0] == 'в',
        w.len() > 1 && w[0] == 's' ==> w == "sound"@,
        w.len() > 1 && w[0] == 'b' ==> w == "bild"@ || w == "bilder"@,
        w.len() > 1 && w[0] == 'k' ==> w == "klang"@,
        w[0] != 'd' && w[0] != 'g' && w[0] != 'u' && w[0] != 'c' && w[0] != '-' && w[0] != '–'
            && w[0] != '—' && w[0] != '.',
        "sound"@.len() == 5 && "sound"@[2] == 'u',
        "bild"@.len() == 4 && "bilder"@.len() == 6 && "klang"@.len() == 5,
{
    reveal_strlit("audio");
    reveal_strlit("sound");
    reveal_strlit("music");
    reveal_strlit("ton");
    reveal_strlit("klang");
    reveal_strlit("musik");
    reveal_strlit("музыка");
    reveal_strlit("звук");
    reveal_strlit("аудио");
    reveal_strlit("аудыё");
    reveal_strlit("image");
    reveal_strlit("images");
    reveal_strlit("img");
    reveal_strlit("i");
    reveal_strlit("bild");
    reveal_strlit("bilder");
    reveal_strlit("foto");
    reveal_strlit("fotos");
    reveal_strlit("выява");
    reveal_strlit("ваява");
    reveal_strlit("в");
    reveal_strlit("video");
    reveal_strlit("videos");
}

/// True of a lower-case token that is none of the flags.
spec fn no_flag(lower: Seq<char>) -> bool {
    &&& lower != "-links"@ && lower != "–links"@ && lower != "—links"@
    &&& lower != "-img"@ && lower != "–img"@ && lower != "—img"@
    &&& lower != "--sort-size"@ && lower != "--sort-by-size"@ && lower != "sort:size"@
    &&& lower != "--bypass-telegram-limit"@
}

proof fn lemma_no_flag(lower: Seq<char>)
    requires
        lower.len() > 0,
        lower[0] != '-' && lower[0] != '–' && lower[0] != '—',
        parser::before_colon(lower) != "sort"@,
    ensures
        no_flag(lower),
{
    reveal_strlit("-links");
    reveal_strlit("–links");
    reveal_strlit("—links");
    reveal_strlit("-img");
    reveal_strlit("–img");
    reveal_strlit("—img");
    reveal_strlit("--sort-size");
    reveal_strlit("--sort-by-size");
    reveal_strlit("--bypass-telegram-limit");
    if lower == "sort:size"@ {
        reveal_strlit("sort:size");
        reveal_strlit("sort");
        reveal_strlit("size");
        assert(lower =~= "sort"@ + seq![':'] + "size"@);
        assert(!"sort"@.contains(':'));
        texts::law_cut_first("sort"@, ':', "size"@);
    }
}

/// A token with a field, a colon and a value is no flag, family or extension.
proof fn lemma_field_token(p: Seq<char>, v: Seq<char>)
    requires
        field_word(p),
        graphic(v),
    ensures
        ({
            let token = p + seq![':'] + v;
            let lower = parser::alias(token);
            &&& text::cut_first(token, ':') == Some((p, v))
            &&& parser::folded(p) == p
            &&& no_flag(lower)
            &&& parser::family_of(parser::before_colon(lower)) is None
            &&& !parser::known_extension(parser::bare_extension(lower))
            &&& lower.len() > p.len() + 1
            &&& lower.contains(':')
            &&& lower.last() == text::lowered(v).last()
        }),
{
    let token = p + seq![':'] + v;
    lemma_field_words(p);
    lemma_small(p);
    assert(graphic(token)) by {
        assert forall|i: int| 0 <= i < token.len() implies '!' <= #[trigger] token[i] <= '~' by {
            if i < p.len() {
                assert(token[i] == p[i]);
            } else if i > p.len() {
                assert(token[i] == v[i - p.len() - 1]);
            }
        }
    }
    lemma_graphic_alias(token);
    let lower = parser::alias(token);
    assert(lower =~= p + seq![':'] + text::lowered(v));
    texts::law_cut_first(p, ':', v);
    texts::law_cut_first(p, ':', text::lowered(v));
    lemma_no_flag(lower);
    assert(lower[p.len() as int] == ':');
    texts::law_leading_dropped(seq![], lower, text::just('.'));
    assert(seq![] + lower =~= lower);
    assert(parser::bare_extension(lower) == text::lowered(lower));
    assert(text::lowered(lower)[p.len() as int] == ':');
    if parser::known_extension(parser::bare_extension(lower)) {
        lemma_extensions_have_no_colon(parser::bare_extension(lower));
        assert(text::lowered(lower).contains(':'));
    }
}

/// Words that stand alone differ from a token with a colon.
proof fn lemma_colon_differs(lower: Seq<char>, w: Seq<char>)
    requires
        lower.contains(':'),
        field_word(w),
    ensures
        lower != w,
{
    lemma_field_words(w);
    lemma_small(w);
}

proof fn lemma_is_ascii(w: Seq<char>)
    requires
        forall|i: int| 0 <= i < w.len() ==> '!' <= #[trigger] w[i] <= '~',
    ensures
        encode_utf8(w).len() == w.len(),
        forall|i: int| 0 <= i < w.len() ==> #[trigger] encode_utf8(w)[i] == w[i] as u8,
{
    assert(is_ascii_chars(w));
    is_ascii_chars_encode_utf8(w);
}

proof fn lemma_digits(w: Seq<char>)
    requires
        digits(w),
    ensures
        graphic(w),
        text::lowered(w) == w,
        numbers::all_digits(w),
        forall|i: int| 0 <= i < w.len() ==> parser::is_decimal(#[trigger] w[i]),
{
    assert(text::lowered(w) =~= w);
}

proof fn lemma_date_words()
    ensures
        "month"@.len() == 5 && "month"@[0] == 'm' && "month"@.last() == 'h' && graphic("month"@),
        "monat"@.len() == 5 && "monat"@[0] == 'm' && "monat"@.last() == 't' && graphic("monat"@),
        "year"@.len() == 4 && "year"@[0] == 'y' && "year"@.last() == 'r' && graphic("year"@),
        "jahr"@.len() == 4 && "jahr"@[0] == 'j' && "jahr"@.last() == 'r' && graphic("jahr"@),
        "days"@.len() == 4 && "days"@[0] == 'd' && "days"@.last() == 's' && graphic("days"@),
        small_letters("month"@) && small_letters("monat"@) && small_letters("year"@)
            && small_letters("jahr"@) && small_letters("days"@),
{
    reveal_strlit("month");
    reveal_strlit("monat");
    reveal_strlit("year");
    reveal_strlit("jahr");
    reveal_strlit("days");
}

/// The date that a value asks for: a year of four digits, a number of days, a day as year, month
/// and day, or the last month or year.
pub proof fn law_date_values(n: Seq<char>, month: Seq<char>, day: Seq<char>)
    requires
        digits(n) && digits(month) && digits(day),
    ensures
        n.len() == 4 ==> parser::date_form(n) && parser::date_filter(n) == Some(
            models::DateView::Year(numbers::number_of(n) as i32),
        ),
        numbers::number_of(n) <= u32::MAX ==> parser::date_form(n + "days"@) && parser::date_filter(
            n + "days"@,
        ) == Some(models::DateView::RelativeDays(numbers::number_of(n) as u32)),
        n.len() == 4 && month.len() == 2 && day.len() == 2 ==> ({
            let date = n + seq!['-'] + month + seq!['-'] + day;
            parser::date_form(date) && parser::date_filter(date) == Some(
                models::DateView::Day(date),
            )
        }),
        parser::date_form("month"@) && parser::date_filter("month"@) == Some(
            models::DateView::PreviousMonth,
        ),
        parser::date_form("monat"@) && parser::date_filter("monat"@) == Some(
            models::DateView::PreviousMonth,
        ),
        parser::date_form("year"@) && parser::date_filter("year"@) == Some(
            models::DateView::PreviousYear,
        ),
        parser::date_form("jahr"@) && parser::date_filter("jahr"@) == Some(
            models::DateView::PreviousYear,
        ),
{
    lemma_date_words();
    lemma_small("month"@);
    lemma_small("monat"@);
    lemma_small("year"@);
    lemma_small("jahr"@);
    lemma_graphic_alias("month"@);
    lemma_graphic_alias("monat"@);
    lemma_graphic_alias("year"@);
    lemma_graphic_alias("jahr"@);
    lemma_digits(n);
    lemma_graphic_alias(n);
    lemma_year_value(n);
    lemma_days_value(n);
    lemma_day_value(n, month, day);
}

proof fn lemma_year_value(n: Seq<char>)
    requires
        digits(n),
    ensures
        n.len() == 4 ==> parser::date_form(n) && parser::date_filter(n) == Some(
            models::DateView::Year(numbers::number_of(n) as i32),
        ),
{
    if n.len() == 4 {
        lemma_date_words();
        lemma_digits(n);
        lemma_graphic_alias(n);
        lemma_is_ascii(n);
        if text::finishes(n, "days"@) {
            assert(n.skip(0)[3] == n[3]);
        }
        lemma_four_digits(n);
    }
}

proof fn lemma_four_digits(n: Seq<char>)
    requires
        digits(n),
        n.len() == 4,
    ensures
        numbers::number_of(n) < 10_000,
{
    let a = n.drop_last();
    let b = a.drop_last();
    let c = b.drop_last();
    assert(numbers::number_of(c.drop_last()) == 0);
    assert(numbers::number_of(c) < 10);
    assert(numbers::number_of(b) < 100);
    assert(numbers::number_of(a) < 1000);
}

proof fn lemma_days_value(n: Seq<char>)
    requires
        digits(n),
    ensures
        numbers::number_of(n) <= u32::MAX ==> parser::date_form(n + "days"@) && parser::date_filter(
            n + "days"@,
        ) == Some(models::DateView::RelativeDays(numbers::number_of(n) as u32)),
{
    lemma_date_words();
    lemma_digits(n);
    let v = n + "days"@;
    assert(graphic(v)) by {
        assert forall|i: int| 0 <= i < v.len() implies '!' <= #[trigger] v[i] <= '~' by {
            if i < n.len() {
                assert(v[i] == n[i]);
            } else {
                assert(v[i] == "days"@[i - n.len()]);
            }
        }
    }
    lemma_graphic_alias(v);
    lemma_small("days"@);
    assert(text::lowered(v) =~= v) by {
        assert forall|i: int| 0 <= i < v.len() implies text::lowered(v)[i] == v[i] by {
            if i < n.len() {
                assert(v[i] == n[i]);
            } else {
                assert(v[i] == "days"@[i - n.len()]);
            }
        }
    }
    assert(parser::folded(v) =~= v) by {
        assert forall|i: int| 0 <= i < v.len() implies parser::folded(v)[i] == v[i] by {
            if i < n.len() {
                assert(v[i] == n[i]);
            } else {
                assert(v[i] == "days"@[i - n.len()]);
            }
        }
    }
    assert(v[0] == n[0]);
    assert(v.skip(v.len() - 4) =~= "days"@);
    assert(v.take(v.len() - 4) =~= n);
    assert(parser::decimals(v, 0, v.len() - 4)) by {
        assert forall|i: int| 0 <= i < v.len() - 4 implies parser::is_decimal(#[trigger] v[i]) by {
            assert(v[i] == n[i]);
        }
    }
}

proof fn lemma_day_value(n: Seq<char>, month: Seq<char>, day: Seq<char>)
    requires
        digits(n) && digits(month) && digits(day),
    ensures
        n.len() == 4 && month.len() == 2 && day.len() == 2 ==> ({
            let date = n + seq!['-'] + month + seq!['-'] + day;
            parser::date_form(date) && parser::date_filter(date) == Some(
                models::DateView::Day(date),
            )
        }),
{
    if n.len() == 4 && month.len() == 2 && day.len() == 2 {
        lemma_date_words();
        lemma_digits(n);
        lemma_digits(month);
        lemma_digits(day);
        let v = n + seq!['-'] + month + seq!['-'] + day;
        assert(v.len() == 10);
        assert(v[0] == n[0] && v[1] == n[1] && v[2] == n[2] && v[3] == n[3] && v[4] == '-');
        assert(v[5] == month[0] && v[6] == month[1] && v[7] == '-');
        assert(v[8] == day[0] && v[9] == day[1]);
        assert(graphic(v));
        lemma_graphic_alias(v);
        assert(text::lowered(v) =~= v);
        lemma_is_ascii(v);
        if text::finishes(v, "days"@) {
            assert(v.skip(6)[3] == v[9]);
        }
    }
}

/// A token for a date: the field and a value in one token, or the word and the value in two, sets
/// the date and nothing else.
pub proof fn law_date_token(
    q: models::QueryView,
    tokens: Seq<Seq<char>>,
    i: int,
    p: Seq<char>,
    v: Seq<char>,
)
    requires
        0 <= i < tokens.len(),
        p == "date"@ || p == "datum"@ || p == "d"@,
        graphic(v),
        parser::date_filter(v) is Some,
    ensures
        parser::date_form(v) && tokens[i] == p + seq![':'] + v ==> parser::query_from(q, tokens, i)
            == parser::query_from(
            models::QueryView { date: parser::date_filter(v), ..q },
            tokens,
            i + 1,
        ),
        tokens[i] == p && i + 1 < tokens.len() && tokens[i + 1] == v ==> parser::query_from(
            q,
            tokens,
            i,
        ) == parser::query_from(
            models::QueryView { date: parser::date_filter(v), ..q },
            tokens,
            i + 2,
        ),
{
    if tokens[i] == p + seq![':'] + v {
        lemma_field_token(p, v);
        texts::law_leading_dropped(seq![], v, text::white_class());
        assert(seq![] + v =~= v);
    }
    if tokens[i] == p {
        lemma_alone(p);
    }
}

/// A date that has the form of one and is none leaves the search as it is where it stands behind
/// its field; where it stands in a token of its own it is taken, and no date is asked for.
pub proof fn law_unreadable_date(
    q: models::QueryView,
    tokens: Seq<Seq<char>>,
    i: int,
    p: Seq<char>,
    v: Seq<char>,
)
    requires
        0 <= i < tokens.len(),
        p == "date"@ || p == "datum"@ || p == "d"@,
        graphic(v),
        parser::date_filter(v) is None,
    ensures
        parser::date_form(v) && tokens[i] == p + seq![':'] + v ==> parser::query_from(q, tokens, i)
            == parser::query_from(q, tokens, i + 1),
        tokens[i] == p && i + 1 < tokens.len() && tokens[i + 1] == v ==> parser::query_from(
            q,
            tokens,
            i,
        ) == parser::query_from(models::QueryView { date: None, ..q }, tokens, i + 2),
{
    if tokens[i] == p + seq![':'] + v {
        lemma_field_token(p, v);
        texts::law_leading_dropped(seq![], v, text::white_class());
        assert(seq![] + v =~= v);
    }
    if tokens[i] == p {
        lemma_alone(p);
    }
}

/// A field word alone is no flag, family or extension.
proof fn lemma_alone(p: Seq<char>)
    requires
        field_word(p),
    ensures
        parser::alias(p) == p,
        no_flag(p),
        parser::family_of(parser::before_colon(p)) is None,
        !parser::known_extension(parser::bare_extension(p)),
        parser::date_value(p) is None,
        parser::size_value(p) is None,
        parser::user_value(p) is None,
        parser::category_value(p) is None,
        text::drop_trailing(p, text::just(':')) == p,
{
    lemma_field_words(p);
    lemma_small(p);
    lemma_no_flag(p);
    texts::law_leading_dropped(seq![], p, text::just('.'));
    assert(seq![] + p =~= p);
    assert(p.last() != ':');
    texts::law_trailing_dropped(p, seq![], text::just(':'));
    assert(p + seq![] =~= p);
}

/// A token for an uploader: the field and the name in one token, or the word and the name in two,
/// sets the uploader and nothing else.
pub proof fn law_user_token(
    q: models::QueryView,
    tokens: Seq<Seq<char>>,
    i: int,
    p: Seq<char>,
    v: Seq<char>,
)
    requires
        0 <= i < tokens.len(),
        p == "user"@ || p == "u"@ || p == "benutzer"@,
        graphic(v),
    ensures
        tokens[i] == p + seq![':'] + v ==> parser::query_from(q, tokens, i) == parser::query_from(
            models::QueryView { user: Some(v), ..q },
            tokens,
            i + 1,
        ),
        tokens[i] == p && i + 1 < tokens.len() ==> parser::query_from(q, tokens, i)
            == parser::query_from(
            models::QueryView { user: Some(tokens[i + 1]), ..q },
            tokens,
            i + 2,
        ),
{
    lemma_field_distinct();
    if tokens[i] == p + seq![':'] + v {
        lemma_field_token(p, v);
        lemma_graphic_alias(v);
        lemma_no_newline(v);
        let lower = parser::alias(tokens[i]);
        lemma_colon_differs(lower, "date"@);
        lemma_colon_differs(lower, "datum"@);
        lemma_colon_differs(lower, "d"@);
    }
    if tokens[i] == p {
        lemma_alone(p);
    }
}

proof fn lemma_no_newline(v: Seq<char>)
    requires
        graphic(v),
    ensures
        parser::tail_value(v) == Some(v),
{
    lemma_graphic_alias(v);
    lemma_no_last(v, v.len() as int);
}

proof fn lemma_no_last(v: Seq<char>, to: int)
    requires
        graphic(v),
        0 <= to <= v.len(),
    ensures
        text::last_position(v, '\n', to) == -1,
    decreases to,
{
    if to > 0 {
        lemma_no_last(v, to - 1);
    }
}

/// The field words are told apart by their letters.
proof fn lemma_field_distinct()
    ensures
        "date"@.len() == 4 && "date"@[0] == 'd',
        "datum"@.len() == 5 && "datum"@[0] == 'd',
        "d"@.len() == 1 && "d"@[0] == 'd',
        "size"@.len() == 4 && "size"@[0] == 's',
        "s"@.len() == 1 && "s"@[0] == 's',
        "groesse"@.len() == 7 && "groesse"@[0] == 'g',
        "größe"@.len() == 5 && "größe"@[0] == 'g' && "größe"@[2] == 'ö',
        "g"@.len() == 1 && "g"@[0] == 'g',
        "user"@.len() == 4 && "user"@[0] == 'u',
        "u"@.len() == 1 && "u"@[0] == 'u',
        "benutzer"@.len() == 8 && "benutzer"@[0] == 'b',
        "c"@.len() == 1 && "c"@[0] == 'c',
        "category"@.len() == 8 && "category"@[0] == 'c',
        "kategorie"@.len() == 9 && "kategorie"@[0] == 'k',
        "kat"@.len() == 3 && "kat"@[0] == 'k',
{
    reveal_strlit("date");
    reveal_strlit("datum");
    reveal_strlit("d");
    reveal_strlit("size");
    reveal_strlit("s");
    reveal_strlit("groesse");
    reveal_strlit("größe");
    reveal_strlit("g");
    reveal_strlit("user");
    reveal_strlit("u");
    reveal_strlit("benutzer");
    reveal_strlit("c");
    reveal_strlit("category");
    reveal_strlit("kategorie");
    reveal_strlit("kat");
}

/// A token for a category: the field and the name in one token, or the word and the name in two,
/// sets the category and nothing else.
pub proof fn law_category_token(
    q: models::QueryView,
    tokens: Seq<Seq<char>>,
    i: int,
    p: Seq<char>,
    v: Seq<char>,
)
    requires
        0 <= i < tokens.len(),
        p == "c"@ || p == "category"@ || p == "kategorie"@ || p == "kat"@,
        graphic(v),
    ensures
        tokens[i] == p + seq![':'] + v ==> parser::query_from(q, tokens, i) == parser::query_from(
            models::QueryView { category: Some(parser::category_name(v)), ..q },
            tokens,
            i + 1,
        ),
        tokens[i] == p && i + 1 < tokens.len() ==> parser::query_from(q, tokens, i)
            == parser::query_from(
            models::QueryView { category: Some(parser::category_name(tokens[i + 1])), ..q },
            tokens,
            i + 2,
        ),
{
    lemma_field_distinct();
    if tokens[i] == p + seq![':'] + v {
        lemma_field_token(p, v);
        lemma_graphic_alias(v);
        lemma_no_newline(v);
        let lower = parser::alias(tokens[i]);
        lemma_colon_differs(lower, "date"@);
        lemma_colon_differs(lower, "datum"@);
        lemma_colon_differs(lower, "d"@);
        lemma_colon_differs(lower, "user"@);
        lemma_colon_differs(lower, "u"@);
        lemma_colon_differs(lower, "benutzer"@);
    }
    if tokens[i] == p {
        lemma_alone(p);
    }
}

/// A field and a colon with nothing behind it.
proof fn lemma_bare_field(p: Seq<char>)
    requires
        field_word(p),
    ensures
        ({
            let lower = p + seq![':'];
            &&& parser::alias(lower) == lower
            &&& text::cut_first(lower, ':') == Some((p, Seq::<char>::empty()))
            &&& parser::folded(p) == p
            &&& no_flag(lower)
            &&& parser::family_of(parser::before_colon(lower)) is None
            &&& !parser::known_extension(parser::bare_extension(lower))
            &&& lower.contains(':')
            &&& text::drop_trailing(lower, text::just(':')) == p
        }),
{
    let lower = p + seq![':'];
    let e = Seq::<char>::empty();
    lemma_field_words(p);
    lemma_small(p);
    assert(graphic(lower)) by {
        assert forall|i: int| 0 <= i < lower.len() implies '!' <= #[trigger] lower[i] <= '~' by {
            if i < p.len() {
                assert(lower[i] == p[i]);
            }
        }
    }
    lemma_graphic_alias(lower);
    assert(text::lowered(lower) =~= lower);
    texts::law_cut_first(p, ':', e);
    assert(p + seq![':'] + e =~= lower);
    lemma_no_flag(lower);
    assert(lower[p.len() as int] == ':');
    texts::law_leading_dropped(e, lower, text::just('.'));
    assert(e + lower =~= lower);
    if parser::known_extension(lower) {
        lemma_extensions_have_no_colon(lower);
    }
    assert(p.last() != ':');
    assert(texts::all_in(seq![':'], text::just(':')));
    texts::law_trailing_dropped(p, seq![':'], text::just(':'));
}

/// A word for categories with a colon and nothing behind it takes the next token for the name.
pub proof fn law_category_colon_token(
    q: models::QueryView,
    tokens: Seq<Seq<char>>,
    i: int,
    p: Seq<char>,
)
    requires
        0 <= i,
        i + 1 < tokens.len(),
        p == "c"@ || p == "category"@ || p == "kategorie"@ || p == "kat"@,
        tokens[i] == p + seq![':'],
    ensures
        parser::query_from(q, tokens, i) == parser::query_from(
            models::QueryView { category: Some(parser::category_name(tokens[i + 1])), ..q },
            tokens,
            i + 2,
        ),
{
    lemma_field_distinct();
    lemma_bare_field(p);
    let lower = tokens[i];
    lemma_colon_differs(lower, "date"@);
    lemma_colon_differs(lower, "datum"@);
    lemma_colon_differs(lower, "d"@);
    lemma_colon_differs(lower, "user"@);
    lemma_colon_differs(lower, "u"@);
    lemma_colon_differs(lower, "benutzer"@);
}

/// A word for users with a colon and just a blank behind it takes the next token for the name.
pub proof fn law_blank_user_token(
    q: models::QueryView,
    tokens: Seq<Seq<char>>,
    i: int,
    p: Seq<char>,
)
    requires
        0 <= i,
        i + 1 < tokens.len(),
        p == "user"@ || p == "u"@ || p == "benutzer"@,
        tokens[i] == p + seq![':'] + seq![' '],
    ensures
        parser::query_from(q, tokens, i) == parser::query_from(
            models::QueryView { user: Some(tokens[i + 1]), ..q },
            tokens,
            i + 2,
        ),
{
    lemma_field_distinct();
    lemma_bare_field(p);
    lemma_field_words(p);
    lemma_small(p);
    let e = Seq::<char>::empty();
    let lower = p + seq![':'];
    let blank = seq![' '];
    texts::law_space(p[0]);
    texts::law_space(':');
    texts::law_space(' ');
    assert(texts::all_in(blank, text::white_class()));
    texts::law_trimmed(e, lower, blank);
    texts::law_trimmed(e, lower, e);
    assert(e + lower + blank =~= tokens[i]);
    assert(e + lower + e =~= lower);
    assert(parser::alias(tokens[i]) == lower);
    texts::law_cut_first(p, ':', blank);
    texts::law_trimmed(blank, e, e);
    assert(blank + e + e =~= blank);
    reveal_with_fuel(text::last_position, 3);
    assert(parser::tail_value(blank) == Some(e));
    lemma_colon_differs(lower, "date"@);
    lemma_colon_differs(lower, "datum"@);
    lemma_colon_differs(lower, "d"@);
}

/// A token that begins like a date and has a word behind it that is none is a term.
pub proof fn law_no_date_token(
    q: models::QueryView,
    tokens: Seq<Seq<char>>,
    i: int,
    p: Seq<char>,
    v: Seq<char>,
)
    requires
        0 <= i < tokens.len(),
        p == "date"@ || p == "datum"@ || p == "d"@,
        small_letters(v),
        v != "month"@ && v != "year"@ && v != "monat"@ && v != "jahr"@,
        tokens[i] == p + seq![':'] + v,
    ensures
        parser::query_from(q, tokens, i) == parser::query_from(
            models::QueryView { terms: q.terms.push(tokens[i]), ..q },
            tokens,
            i + 1,
        ),
{
    lemma_field_distinct();
    lemma_date_field(p);
    lemma_small(v);
    lemma_field_token(p, v);
    let lower = parser::alias(tokens[i]);
    lemma_colon_differs(lower, "date"@);
    lemma_colon_differs(lower, "datum"@);
    lemma_colon_differs(lower, "d"@);
    lemma_colon_differs(lower, "user"@);
    lemma_colon_differs(lower, "u"@);
    lemma_colon_differs(lower, "benutzer"@);
    lemma_colon_differs(lower, "c"@);
    lemma_colon_differs(lower, "category"@);
    lemma_colon_differs(lower, "kategorie"@);
    lemma_colon_differs(lower, "kat"@);
    texts::law_leading_dropped(seq![], v, text::white_class());
    assert(seq![] + v =~= v);
    assert('a' <= v[0] <= 'z');
    assert(!parser::is_decimal(v[0]));
    assert(!parser::date_form(v));
    texts::law_trailing_dropped(lower, seq![], text::just(':'));
    assert(lower + seq![] =~= lower);
    assert('a' <= v.last() <= 'z');
    lemma_no_category_word(lower);
    assert(parser::date_value(tokens[i]) is None);
    assert(parser::size_value(tokens[i]) is None);
    assert(parser::user_value(tokens[i]) is None);
    assert(parser::category_value(tokens[i]) is None);
}

/// The words for dates are none for sizes, users or categories.
proof fn lemma_date_field(p: Seq<char>)
    requires
        p == "date"@ || p == "datum"@ || p == "d"@,
    ensures
        p != "size"@ && p != "s"@ && p != "groesse"@ && p != "größe"@ && p != "g"@,
        p != "user"@ && p != "u"@ && p != "benutzer"@,
        p != "c"@ && p != "category"@ && p != "категория"@ && p != "катэгорыя"@,
        p != "kategorie"@ && p != "kat"@ && p != "к"@ && p != "с"@,
{
    reveal_strlit("date");
    reveal_strlit("datum");
    reveal_strlit("d");
    reveal_strlit("size");
    reveal_strlit("s");
    reveal_strlit("groesse");
    reveal_strlit("größe");
    reveal_strlit("g");
    reveal_strlit("user");
    reveal_strlit("u");
    reveal_strlit("benutzer");
    reveal_strlit("c");
    reveal_strlit("category");
    reveal_strlit("категория");
    reveal_strlit("катэгорыя");
    reveal_strlit("kategorie");
    reveal_strlit("kat");
    reveal_strlit("к");
    reveal_strlit("с");
    assert(p[0] == 'd');
    assert("size"@[0] == 's' && "s"@[0] == 's' && "groesse"@[0] == 'g' && "größe"@[0] == 'g'
        && "g"@[0] == 'g');
    assert("user"@[0] == 'u' && "u"@[0] == 'u' && "benutzer"@[0] == 'b');
    assert("c"@[0] == 'c' && "category"@[0] == 'c' && "категория"@[0] == 'к' && "катэгорыя"@[0]
        == 'к');
    assert("kategorie"@[0] == 'k' && "kat"@[0] == 'k' && "к"@[0] == 'к' && "с"@[0] == 'с');
}

/// A text with a colon is no word for categories.
proof fn lemma_no_category_word(lower: Seq<char>)
    requires
        lower.contains(':'),
        lower != "c"@ && lower != "category"@ && lower != "kategorie"@ && lower != "kat"@,
    ensures
        !parser::category_word(lower),
{
    reveal_strlit("категория");
    reveal_strlit("катэгорыя");
    reveal_strlit("к");
    reveal_strlit("с");
    reveal_strlit("k");
    reveal_strlit("c");
    reveal_strlit("kat");
    reveal_strlit("category");
    reveal_strlit("kategorie");
}

/// A name of a category has no namespace in front, and blanks for underscores.
pub proof fn law_category_names(name: Seq<char>, k: int)
    requires
        graphic(name),
        !text::begins(name, "Category:"@),
        !text::begins(name, "category:"@),
        0 <= k < name.len(),
    ensures
        parser::category_name("Category:"@ + name) == parser::category_name(name),
        parser::category_name("category:"@ + name) == parser::category_name(name),
        parser::category_name(name).len() == name.len(),
        parser::category_name(name)[k] == (if name[k] == '_' {
            ' '
        } else {
            name[k]
        }),
{
    reveal_strlit("Category:");
    reveal_strlit("category:");
    reveal_strlit(" ");
    assert(" "@ =~= seq![' ']);
    lemma_graphic_alias(name);
    texts::law_prefix_dropped("Category:"@, name);
    texts::law_prefix_dropped("category:"@, name);
    texts::law_replaced_character(name, '_', ' ');
    let a = "Category:"@ + name;
    let b = "category:"@ + name;
    assert(graphic(a)) by {
        assert forall|i: int| 0 <= i < a.len() implies '!' <= #[trigger] a[i] <= '~' by {
            if i >= 9 {
                assert(a[i] == name[i - 9]);
            }
        }
    }
    assert(graphic(b)) by {
        assert forall|i: int| 0 <= i < b.len() implies '!' <= #[trigger] b[i] <= '~' by {
            if i >= 9 {
                assert(b[i] == name[i - 9]);
            }
        }
    }
    lemma_graphic_alias(a);
    lemma_graphic_alias(b);
    if text::begins(b, "Category:"@) {
        assert(b.take(9)[0] == 'C');
    }
}

proof fn lemma_decimals_end(t: Seq<char>, from: int, to: int)
    requires
        0 <= from <= to <= t.len(),
        forall|i: int| from <= i < to ==> '0' <= #[trigger] t[i] <= '9',
        to < t.len() ==> (t[to] as u32) < 0x80 && !('0' <= t[to] <= '9'),
    ensures
        parser::decimals_end(t, from) == to,
    decreases to - from,
{
    if from < to {
        lemma_decimals_end(t, from + 1, to);
    }
}

/// The number of a size as it is written: digits, and behind a point more digits.
pub open spec fn written_number(whole: Seq<char>, fraction: Seq<char>) -> Seq<char> {
    if fraction.len() > 0 {
        whole + seq!['.'] + fraction
    } else {
        whole
    }
}

/// A value of a size is read as its sign, its digits and its unit.
proof fn lemma_written_size(sign: char, whole: Seq<char>, fraction: Seq<char>, unit: Seq<char>)
    requires
        sign == '<' || sign == '>',
        digits(whole),
        fraction.len() == 0 || digits(fraction),
        unit.len() == 0 || small_letters(unit),
        inputs::unit_bytes(unit) is Some,
    ensures
        parser::written_size(seq![sign] + written_number(whole, fraction) + unit) == Some(
            (parser::WrittenSize { greater: sign == '>', whole, fraction, unit }),
        ),
{
    let number = written_number(whole, fraction);
    let v = seq![sign] + number + unit;
    let t = number + unit;
    let a = whole.len() as int;
    texts::law_leading_dropped(seq![], v, text::white_class());
    assert(seq![] + v =~= v);
    assert(v[0] == sign);
    assert(v.skip(1) =~= t);
    assert(t[0] == whole[0]);
    texts::law_leading_dropped(seq![], t, text::white_class());
    assert(seq![] + t =~= t);
    assert forall|i: int| 0 <= i < a implies '0' <= #[trigger] t[i] <= '9' by {
        assert(t[i] == whole[i]);
    }
    if fraction.len() > 0 {
        let b = a + 1 + fraction.len();
        assert(t[a] == '.');
        lemma_decimals_end(t, 0, a);
        assert forall|i: int| a + 1 <= i < b implies '0' <= #[trigger] t[i] <= '9' by {
            assert(t[i] == fraction[i - a - 1]);
        }
        if b < t.len() {
            assert(t[b] == unit[0]);
        }
        lemma_decimals_end(t, a + 1, b);
        assert(t[a + 1] == fraction[0]);
        assert(t.skip(b) =~= unit);
        assert(t.subrange(a + 1, b) =~= fraction);
    } else {
        if a < t.len() {
            assert(t[a] == unit[0]);
        }
        lemma_decimals_end(t, 0, a);
        assert(t.skip(a) =~= unit);
        assert(fraction =~= seq![]);
    }
    assert(t.take(a) =~= whole);
    texts::law_leading_dropped(seq![], unit, text::white_class());
    assert(seq![] + unit =~= unit);
    assert(parser::folded(unit) =~= text::lowered(unit));
}

/// A token for a size adds one bound and nothing else: below it for `<`, above it for `>`, of so
/// many bytes as the number says in the unit.
pub proof fn law_size_token(
    q: models::QueryView,
    tokens: Seq<Seq<char>>,
    i: int,
    p: Seq<char>,
    sign: char,
    whole: Seq<char>,
    fraction: Seq<char>,
    unit: Seq<char>,
    bytes: nat,
)
    requires
        0 <= i < tokens.len(),
        p == "size"@ || p == "s"@ || p == "groesse"@ || p == "g"@,
        sign == '<' || sign == '>',
        digits(whole),
        fraction.len() == 0 || digits(fraction),
        unit.len() == 0 || small_letters(unit),
        inputs::unit_bytes(unit) is Some,
        tokens[i] == p + seq![':'] + (seq![sign] + written_number(whole, fraction) + unit),
        bytes < 0x20_0000_0000_0000,
        (numbers::number_of(whole) * rounding::ten_to(fraction.len()) + numbers::number_of(
            fraction,
        )) * inputs::unit_bytes(unit)->0 == bytes * rounding::ten_to(fraction.len()),
    ensures
        parser::query_from(q, tokens, i) == parser::query_from(
            models::QueryView {
                size_filters: q.size_filters.push(
                    SizeFilter {
                        op: if sign == '>' {
                            SizeOp::GreaterThan
                        } else {
                            SizeOp::LessThan
                        },
                        bytes: bytes as u64,
                    },
                ),
                ..q
            },
            tokens,
            i + 1,
        ),
{
    let number = written_number(whole, fraction);
    let v = seq![sign] + number + unit;
    assert(graphic(v)) by {
        assert forall|j: int| 0 <= j < v.len() implies '!' <= #[trigger] v[j] <= '~' by {
            if 1 <= j <= number.len() {
                assert(v[j] == number[j - 1]);
                if j - 1 < whole.len() {
                    assert(number[j - 1] == whole[j - 1]);
                } else if j - 1 > whole.len() {
                    assert(number[j - 1] == fraction[j - 2 - whole.len()]);
                }
            } else if j > number.len() {
                assert(v[j] == unit[j - 1 - number.len()]);
            }
        }
    }
    lemma_field_distinct();
    lemma_field_token(p, v);
    lemma_written_size(sign, whole, fraction, unit);
    let lower = parser::alias(tokens[i]);
    lemma_colon_differs(lower, "date"@);
    lemma_colon_differs(lower, "datum"@);
    lemma_colon_differs(lower, "d"@);
    let w = parser::WrittenSize { greater: sign == '>', whole, fraction, unit };
    inputs::law_written_size(w, bytes);
}

/// The family that a word names.
pub open spec fn family_named(w: Seq<char>) -> Option<FileType> {
    if w == "audio"@ || w == "sound"@ || w == "music"@ || w == "ton"@ || w == "klang"@ || w
        == "musik"@ {
        Some(FileType::Audio)
    } else if w == "image"@ || w == "images"@ || w == "img"@ || w == "i"@ || w == "bild"@ || w
        == "bilder"@ || w == "foto"@ || w == "fotos"@ {
        Some(FileType::Images)
    } else if w == "video"@ || w == "videos"@ {
        Some(FileType::Video)
    } else {
        None
    }
}

#[verifier::rlimit(40)]
proof fn lemma_family_named(w: Seq<char>)
    requires
        family_named(w) is Some,
    ensures
        small_letters(w),
        parser::family_of(w) == family_named(w),
        w != "sort"@,
{
    reveal_strlit("audio");
    reveal_strlit("sound");
    reveal_strlit("music");
    reveal_strlit("ton");
    reveal_strlit("klang");
    reveal_strlit("musik");
    reveal_strlit("музыка");
    reveal_strlit("звук");
    reveal_strlit("аудио");
    reveal_strlit("аудыё");
    reveal_strlit("image");
    reveal_strlit("images");
    reveal_strlit("img");
    reveal_strlit("i");
    reveal_strlit("bild");
    reveal_strlit("bilder");
    reveal_strlit("foto");
    reveal_strlit("fotos");
    reveal_strlit("выява");
    reveal_strlit("ваява");
    reveal_strlit("в");
    reveal_strlit("video");
    reveal_strlit("videos");
    reveal_strlit("sort");
    assert("sort"@[0] == 's' && "sort"@.len() == 4);
    assert("audio"@[0] == 'a' && "sound"@[0] == 's' && "music"@[0] == 'm' && "ton"@[0] == 't');
    assert("klang"@[0] == 'k' && "musik"@[0] == 'm' && "sound"@.len() == 5);
    assert("музыка"@[0] == 'м' && "звук"@[0] == 'з' && "аудио"@[0] == 'а' && "аудыё"@[0] == 'а');
    assert("image"@[0] == 'i' && "images"@[0] == 'i' && "img"@[0] == 'i' && "i"@[0] == 'i');
    assert("bild"@[0] == 'b' && "bilder"@[0] == 'b' && "foto"@[0] == 'f' && "fotos"@[0] == 'f');
    assert("выява"@[0] == 'в' && "ваява"@[0] == 'в' && "в"@[0] == 'в');
    assert("video"@[0] == 'v' && "videos"@[0] == 'v');
}

/// A word for a family, alone or with a colon and a term, sets the family; the term is one of the
/// search. Nothing else changes.
pub proof fn law_family_token(
    q: models::QueryView,
    tokens: Seq<Seq<char>>,
    i: int,
    w: Seq<char>,
    v: Seq<char>,
)
    requires
        0 <= i < tokens.len(),
        family_named(w) is Some,
        graphic(v),
    ensures
        tokens[i] == w ==> parser::query_from(q, tokens, i) == parser::query_from(
            models::QueryView { file_type: family_named(w), ..q },
            tokens,
            i + 1,
        ),
        tokens[i] == w + seq![':'] + v ==> parser::query_from(q, tokens, i) == parser::query_from(
            models::QueryView { file_type: family_named(w), terms: q.terms.push(v), ..q },
            tokens,
            i + 1,
        ),
{
    lemma_family_named(w);
    lemma_small(w);
    if tokens[i] == w {
        lemma_no_flag(w);
    }
    if tokens[i] == w + seq![':'] + v {
        let token = tokens[i];
        assert(graphic(token)) by {
            assert forall|j: int| 0 <= j < token.len() implies '!' <= #[trigger] token[j] <= '~' by {
                if j < w.len() {
                    assert(token[j] == w[j]);
                } else if j > w.len() {
                    assert(token[j] == v[j - w.len() - 1]);
                }
            }
        }
        lemma_graphic_alias(token);
        let lower = parser::alias(token);
        assert(lower =~= w + seq![':'] + text::lowered(v));
        texts::law_cut_first(w, ':', v);
        texts::law_cut_first(w, ':', text::lowered(v));
        lemma_no_flag(lower);
        lemma_graphic_alias(v);
    }
}

/// True of the words that a search takes for extensions.
pub open spec fn extension_named(e: Seq<char>) -> bool {
    ||| e == "gif"@ || e == "jpeg"@ || e == "jpg"@ || e == "png"@ || e == "svg"@ || e == "tif"@
    ||| e == "tiff"@ || e == "webp"@ || e == "xcf"@ || e == "avif"@ || e == "bmp"@
    ||| e == "flac"@ || e == "mid"@ || e == "midi"@ || e == "mp3"@ || e == "oga"@ || e == "ogg"@
    ||| e == "opus"@ || e == "wav"@ || e == "mpeg"@ || e == "mpg"@ || e == "ogv"@ || e == "webm"@
    ||| e == "mp4"@ || e == "djvu"@ || e == "pdf"@ || e == "stl"@
}

#[verifier::rlimit(60)]
proof fn lemma_extension_named(e: Seq<char>)
    requires
        extension_named(e),
    ensures
        graphic(e),
        forall|i: int| 0 <= i < e.len() ==> 'a' <= #[trigger] e[i] <= 'z' || '0' <= e[i] <= '9',
        parser::known_extension(e),
        parser::family_of(e) is None,
        e.len() == 3 || e.len() == 4,
        e != "sort"@,
{
    reveal_strlit("gif");
    reveal_strlit("jpeg");
    reveal_strlit("jpg");
    reveal_strlit("png");
    reveal_strlit("svg");
    reveal_strlit("tif");
    reveal_strlit("tiff");
    reveal_strlit("webp");
    reveal_strlit("xcf");
    reveal_strlit("avif");
    reveal_strlit("bmp");
    reveal_strlit("flac");
    reveal_strlit("mid");
    reveal_strlit("midi");
    reveal_strlit("mp3");
    reveal_strlit("oga");
    reveal_strlit("ogg");
    reveal_strlit("opus");
    reveal_strlit("wav");
    reveal_strlit("mpeg");
    reveal_strlit("mpg");
    reveal_strlit("ogv");
    reveal_strlit("webm");
    reveal_strlit("mp4");
    reveal_strlit("djvu");
    reveal_strlit("pdf");
    reveal_strlit("stl");
    reveal_strlit("sort");
    assert(text::lowered(e) =~= e);
    assert("sort"@[0] == 's' && "sort"@.len() == 4);
    assert(e.len() == 4 ==> e[0] != 's');
    lemma_extension_lists(e);
    if parser::family_of(e) is Some {
        lemma_short_families(e);
    }
}

proof fn lemma_extension_lists(e: Seq<char>)
    requires
        extension_named(e),
        text::lowered(e) == e,
    ensures
        parser::known_extension(e),
{
    let a = models::COMMONS_IMAGE_EXTENSIONS@;
    let b = models::COMMONS_AUDIO_EXTENSIONS@;
    let c = models::COMMONS_VIDEO_EXTENSIONS@;
    let d = models::COMMONS_DOCUMENT_EXTENSIONS@;
    let f = models::COMMONS_MODEL_EXTENSIONS@;
    assert(a[0]@ == "gif"@ && a[1]@ == "jpeg"@ && a[2]@ == "jpg"@ && a[3]@ == "png"@);
    assert(a[4]@ == "svg"@ && a[5]@ == "tif"@ && a[6]@ == "tiff"@ && a[7]@ == "webp"@);
    assert(a[8]@ == "xcf"@);
    assert(b[0]@ == "flac"@ && b[1]@ == "mid"@ && b[2]@ == "midi"@ && b[3]@ == "mp3"@);
    assert(b[4]@ == "oga"@ && b[5]@ == "ogg"@ && b[6]@ == "opus"@ && b[7]@ == "wav"@);
    assert(c[0]@ == "mpeg"@ && c[1]@ == "mpg"@ && c[2]@ == "ogv"@ && c[3]@ == "webm"@);
    assert(d[0]@ == "djvu"@ && d[1]@ == "pdf"@);
    assert(f[0]@ == "stl"@);
}

#[verifier::rlimit(40)]
proof fn lemma_short_families(w: Seq<char>)
    requires
        parser::family_of(w) is Some,
        w.len() == 3 || w.len() == 4,
    ensures
        w == "ton"@ || w == "img"@ || w == "bild"@ || w == "foto"@ || w == "звук"@,
        "ton"@[0] == 't' && "ton"@[1] == 'o',
        "img"@[0] == 'i',
        "bild"@[0] == 'b' && "bild"@[1] == 'i',
        "foto"@[0] == 'f' && "foto"@[1] == 'o',
        "звук"@[0] == 'з',
{
    reveal_strlit("audio");
    reveal_strlit("sound");
    reveal_strlit("music");
    reveal_strlit("ton");
    reveal_strlit("klang");
    reveal_strlit("musik");
    reveal_strlit("музыка");
    reveal_strlit("звук");
    reveal_strlit("аудио");
    reveal_strlit("аудыё");
    reveal_strlit("image");
    reveal_strlit("images");
    reveal_strlit("img");
    reveal_strlit("i");
    reveal_strlit("bild");
    reveal_strlit("bilder");
    reveal_strlit("foto");
    reveal_strlit("fotos");
    reveal_strlit("выява");
    reveal_strlit("ваява");
    reveal_strlit("в");
    reveal_strlit("video");
    reveal_strlit("videos");
}

/// An extension, with or without a dot in front, sets the extension without the dot, and nothing
/// else.
pub proof fn law_extension_token(q: models::QueryView, tokens: Seq<Seq<char>>, i: int, e: Seq<char>)
    requires
        0 <= i < tokens.len(),
        extension_named(e),
        tokens[i] == e || tokens[i] == seq!['.'] + e,
    ensures
        parser::query_from(q, tokens, i) == parser::query_from(
            models::QueryView { extension: Some(e), ..q },
            tokens,
            i + 1,
        ),
{
    let token = tokens[i];
    lemma_extension_named(e);
    assert(text::lowered(e) =~= e);
    assert(graphic(token)) by {
        assert forall|j: int| 0 <= j < token.len() implies '!' <= #[trigger] token[j] <= '~' by {
            if token != e && j > 0 {
                assert(token[j] == e[j - 1]);
            }
        }
    }
    lemma_graphic_alias(token);
    let lower = parser::alias(token);
    let dot = if token == e {
        Seq::<char>::empty()
    } else {
        seq!['.']
    };
    assert(lower =~= dot + e);
    texts::law_leading_dropped(dot, e, text::just('.'));
    assert(!lower.contains(':'));
    texts::law_cut_first(lower, ':', seq![]);
    if token != e {
        assert(lower[0] == '.');
        reveal_strlit("sort");
        if parser::family_of(lower) is Some {
            lemma_family_letters(lower);
        }
    }
    lemma_no_flag(lower);
}

/// True of the words that a search does not take for terms.
pub open spec fn reserved_word(w: Seq<char>) -> bool {
    ||| family_named(w) is Some
    ||| extension_named(w)
    ||| field_word(w)
    ||| w == "k"@
}

/// A word of small letters that means nothing else is a term of the search, behind those before
/// it. Nothing else changes.
pub proof fn law_term_token(q: models::QueryView, tokens: Seq<Seq<char>>, i: int)
    requires
        0 <= i < tokens.len(),
        small_letters(tokens[i]),
        !reserved_word(tokens[i]),
    ensures
        parser::query_from(q, tokens, i) == parser::query_from(
            models::QueryView { terms: q.terms.push(tokens[i]), ..q },
            tokens,
            i + 1,
        ),
{
    let w = tokens[i];
    lemma_small(w);
    lemma_not_reserved(w);
    texts::law_leading_dropped(seq![], w, text::just('.'));
    assert(seq![] + w =~= w);
    texts::law_trailing_dropped(w, seq![], text::just(':'));
    assert(w + seq![] =~= w);
    if w == "sort"@ {
        reveal_strlit("sort");
        reveal_strlit("sort:size");
        reveal_strlit("-links");
        reveal_strlit("–links");
        reveal_strlit("—links");
        reveal_strlit("-img");
        reveal_strlit("–img");
        reveal_strlit("—img");
        reveal_strlit("--sort-size");
        reveal_strlit("--sort-by-size");
        reveal_strlit("--bypass-telegram-limit");
    } else {
        lemma_no_flag(w);
    }
}

proof fn lemma_not_reserved(w: Seq<char>)
    requires
        small_letters(w),
        !reserved_word(w),
    ensures
        parser::family_of(w) is None,
        !parser::known_extension(w),
        !parser::category_word(w),
{
    lemma_small(w);
    reveal_strlit("музыка");
    reveal_strlit("звук");
    reveal_strlit("аудио");
    reveal_strlit("аудыё");
    reveal_strlit("выява");
    reveal_strlit("ваява");
    reveal_strlit("в");
    reveal_strlit("категория");
    reveal_strlit("катэгорыя");
    reveal_strlit("к");
    reveal_strlit("с");
}

} // verus!
