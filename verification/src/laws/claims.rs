//! Laws on how Wikidata claims are read and shown.

use vstd::prelude::*;
use crate::escaping;
use crate::laws::texts;
use crate::laws::tokens;
use crate::numbers;
use crate::telegram;
use crate::text;
use crate::wikidata;
use crate::wikidata::{WikidataLabelInfo, WikidataSnak, WikidataValue};

verus! {

/// A text without the signs of markup stands in HTML as it is.
pub proof fn law_plain_html(s: Seq<char>)
    requires
        forall|i: int| 0 <= i < s.len() ==> #[trigger] s[i] != '&' && s[i] != '<' && s[i] != '>',
    ensures
        escaping::html_text(s) == s,
    decreases s.len(),
{
    if s.len() > 0 {
        law_plain_html(s.drop_last());
        assert(s.drop_last().push(s.last()) =~= s);
        assert(escaping::html_text(s) =~= escaping::html_text(s.drop_last()) + seq![s.last()]);
        assert(s[s.len() - 1] == s.last());
    } else {
        assert(s =~= seq![]);
    }
}

/// The signs of markup stand in HTML as references, each in its place.
pub proof fn law_markup_is_escaped(a: Seq<char>, b: Seq<char>)
    ensures
        escaping::html_text(a + seq!['&'] + b) == escaping::html_text(a) + "&amp;"@
            + escaping::html_text(b),
        escaping::html_text(a + seq!['<'] + b) == escaping::html_text(a) + "&lt;"@
            + escaping::html_text(b),
        escaping::html_text(a + seq!['>'] + b) == escaping::html_text(a) + "&gt;"@
            + escaping::html_text(b),
{
    let f = escaping::html_text_char();
    texts::law_expanded(a + seq!['&'], b, '&', f);
    texts::law_expanded(a, seq!['&'], '&', f);
    texts::law_expanded(a + seq!['<'], b, '<', f);
    texts::law_expanded(a, seq!['<'], '<', f);
    texts::law_expanded(a + seq!['>'], b, '>', f);
    texts::law_expanded(a, seq!['>'], '>', f);
}

proof fn lemma_no_unknown(s: Seq<char>)
    requires
        !text::finishes(s, "-00"@),
    ensures
        wikidata::known_parts(s) == s,
{
}

proof fn lemma_unknown_dropped(s: Seq<char>)
    ensures
        wikidata::known_parts(s + "-00"@) == wikidata::known_parts(s),
{
    reveal_strlit("-00");
    let t = s + "-00"@;
    assert(t.skip(t.len() - 3) =~= "-00"@);
    assert(t.take(t.len() - 3) =~= s);
}

/// Whether a text that ends with a dash and digits ends with two zeros.
proof fn lemma_ends_unknown(s: Seq<char>, n: Seq<char>)
    requires
        tokens::digits(n),
        n != seq!['0', '0'],
    ensures
        !text::finishes(s + seq!['-'] + n, "-00"@),
        !text::finishes(n, "-00"@),
{
    reveal_strlit("-00");
    let t = s + seq!['-'] + n;
    if text::finishes(n, "-00"@) {
        assert(n.skip(n.len() - 3)[0] == n[n.len() - 3]);
    }
    if text::finishes(t, "-00"@) {
        let e = t.skip(t.len() - 3);
        assert(e[0] == t[t.len() - 3] && e[1] == t[t.len() - 2] && e[2] == t[t.len() - 1]);
        if n.len() == 1 {
            assert(t[t.len() - 2] == '-');
        } else if n.len() == 2 {
            assert(t[t.len() - 2] == n[0] && t[t.len() - 1] == n[1]);
            assert(n =~= seq!['0', '0']);
        } else {
            assert(t[t.len() - 3] == n[n.len() - 3]);
        }
    }
}

proof fn lemma_time(value: WikidataValue, date: Seq<char>, rest: Seq<char>)
    requires
        value.time is Some,
        (value.time->0)@ == seq!['+'] + date + seq!['T'] + rest,
        date.len() > 0,
        date[0] != '+',
        !date.contains('T'),
        wikidata::known_parts(date).len() > 0,
        forall|i: int|
            0 <= i < wikidata::known_parts(date).len() ==> #[trigger] wikidata::known_parts(date)[i]
                != '&' && wikidata::known_parts(date)[i] != '<' && wikidata::known_parts(date)[i]
                != '>',
    ensures
        wikidata::time_text(value) == Some(wikidata::known_parts(date)),
{
    let raw = (value.time->0)@;
    let unsigned = date + seq!['T'] + rest;
    assert(raw =~= seq!['+'] + unsigned);
    assert(unsigned[0] == date[0]);
    texts::law_leading_dropped(seq!['+'], unsigned, text::just('+'));
    texts::law_cut_first(date, 'T', rest);
    law_plain_html(wikidata::known_parts(date));
}

/// The day of a time is shown as year, month and day; where the day is not known, as year and
/// month; where the month is not known either, as the year. The time of the day is not shown.
pub proof fn law_time_is_shown_as_date(
    value: WikidataValue,
    year: Seq<char>,
    month: Seq<char>,
    day: Seq<char>,
    rest: Seq<char>,
)
    requires
        tokens::digits(year) && tokens::digits(month) && tokens::digits(day),
        value.time is Some,
        (value.time->0)@ == seq!['+'] + (year + seq!['-'] + month + seq!['-'] + day) + seq!['T']
            + rest,
    ensures
        month != seq!['0', '0'] && day != seq!['0', '0'] ==> wikidata::time_text(value) == Some(
            year + seq!['-'] + month + seq!['-'] + day,
        ),
        month != seq!['0', '0'] && day == seq!['0', '0'] ==> wikidata::time_text(value) == Some(
            year + seq!['-'] + month,
        ),
        month == seq!['0', '0'] && day == seq!['0', '0'] ==> wikidata::time_text(value) == Some(
            year,
        ),
{
    reveal_strlit("-00");
    let ym = year + seq!['-'] + month;
    let date = year + seq!['-'] + month + seq!['-'] + day;
    assert(date =~= ym + seq!['-'] + day);
    assert(date[0] == year[0]);
    assert forall|i: int| 0 <= i < date.len() implies ('0' <= #[trigger] date[i] <= '9' || date[i]
        == '-') by {
        if i < year.len() {
            assert(date[i] == year[i]);
        } else if year.len() < i < ym.len() {
            assert(date[i] == month[i - year.len() - 1]);
        } else if i > ym.len() {
            assert(date[i] == day[i - ym.len() - 1]);
        }
    }
    assert(!date.contains('T'));
    assert(tokens::digits(year) && year != seq!['0', '0'] ==> !text::finishes(year, "-00"@)) by {
        if year != seq!['0', '0'] {
            lemma_ends_unknown(seq![], year);
        }
    }
    if text::finishes(year, "-00"@) {
        assert(year.skip(year.len() - 3)[0] == year[year.len() - 3]);
    }
    if day != seq!['0', '0'] {
        lemma_ends_unknown(ym, day);
        lemma_no_unknown(date);
    } else {
        assert(date =~= ym + "-00"@);
        lemma_unknown_dropped(ym);
        if month != seq!['0', '0'] {
            lemma_ends_unknown(year, month);
            lemma_no_unknown(ym);
        } else {
            assert(ym =~= year + "-00"@);
            lemma_unknown_dropped(year);
            lemma_no_unknown(year);
        }
    }
    let k = wikidata::known_parts(date);
    if day == seq!['0', '0'] || month != seq!['0', '0'] {
        assert(k == date || k == ym || k == year);
        assert(date.take(ym.len() as int) =~= ym);
        assert(date.take(year.len() as int) =~= year);
        assert forall|i: int| 0 <= i < k.len() implies #[trigger] k[i] != '&' && k[i] != '<' && k[i]
            != '>' by {
            assert(k[i] == date[i]);
        }
        lemma_time(value, date, rest);
    }
}

/// Ids of entities: a letter for items, properties or lexemes in any case and digits, with the
/// letter as a capital. Other letters make no id, nor does what does not go on with digits alone.
pub proof fn law_entity_ids(letter: char, n: Seq<char>)
    requires
        tokens::digits(n),
        'a' <= letter <= 'z' || 'A' <= letter <= 'Z',
    ensures
        letter == 'q' || letter == 'Q' ==> wikidata::entity_id(seq![letter] + n) == Some(
            seq!['Q'] + n,
        ),
        letter == 'p' || letter == 'P' ==> wikidata::entity_id(seq![letter] + n) == Some(
            seq!['P'] + n,
        ),
        letter == 'l' || letter == 'L' ==> wikidata::entity_id(seq![letter] + n) == Some(
            seq!['L'] + n,
        ),
        letter != 'q' && letter != 'Q' && letter != 'p' && letter != 'P' && letter != 'l' && letter
            != 'L' ==> wikidata::entity_id(seq![letter] + n) is None,
        wikidata::entity_id(n) is None,
        wikidata::entity_id(seq![letter] + n + seq!['x']) is None,
{
    let s = seq![letter] + n;
    texts::law_trimmed(seq![], s, seq![]);
    assert(seq![] + s + seq![] =~= s);
    assert(s.last() == n.last());
    assert(s.skip(1) =~= n);
    texts::law_trimmed(seq![], n, seq![]);
    assert(seq![] + n + seq![] =~= n);
    let t = s + seq!['x'];
    assert(t =~= seq![letter] + n + seq!['x']);
    texts::law_trimmed(seq![], t, seq![]);
    assert(seq![] + t + seq![] =~= t);
    assert(t.skip(1).last() == 'x');
    assert(t.skip(1)[t.len() - 2] == 'x');
}

/// The id in an address is what stands behind its last slash.
pub proof fn law_id_in_address(base: Seq<char>, id: Seq<char>)
    requires
        !id.contains('/'),
    ensures
        wikidata::id_in_url(base + seq!['/'] + id) == wikidata::entity_id(id),
        wikidata::id_in_url(id) == wikidata::entity_id(id),
{
    texts::law_cut_last(base, '/', id);
}

/// An amount is shown without its plus sign, and with its unit unless it has none.
pub proof fn law_amounts(
    value: WikidataValue,
    amount: Seq<char>,
    labels: Map<Seq<char>, WikidataLabelInfo>,
)
    requires
        amount.len() > 0,
        amount[0] != '+',
        forall|i: int|
            0 <= i < amount.len() ==> #[trigger] amount[i] != '&' && amount[i] != '<' && amount[i]
                != '>',
        value.amount is Some,
        (value.amount->0)@ == amount || (value.amount->0)@ == seq!['+'] + amount,
    ensures
        value.unit is None ==> wikidata::quantity_text(value, labels) == Some(amount),
        value.unit is Some && (value.unit->0)@ == "1"@ ==> wikidata::quantity_text(value, labels)
            == Some(amount),
        value.unit is Some && (value.unit->0)@ != "1"@ && wikidata::id_in_url(
            (value.unit->0)@,
        ) is Some ==> wikidata::quantity_text(value, labels) == Some(
            amount + " "@ + wikidata::entity_link(
                wikidata::id_in_url((value.unit->0)@)->0,
                labels,
            ),
        ),
{
    let plus = if (value.amount->0)@ == amount {
        Seq::<char>::empty()
    } else {
        seq!['+']
    };
    assert((value.amount->0)@ =~= plus + amount);
    texts::law_leading_dropped(plus, amount, text::just('+'));
    law_plain_html(amount);
}

/// A link shows its label and leads to its address.
pub proof fn law_links(url: Seq<char>, label: Seq<char>)
    requires
        forall|i: int|
            0 <= i < url.len() ==> #[trigger] url[i] != '&' && url[i] != '<' && url[i] != '>'
                && url[i] != '"',
        forall|i: int|
            0 <= i < label.len() ==> #[trigger] label[i] != '&' && label[i] != '<' && label[i]
                != '>',
    ensures
        telegram::link(url, label) == "<a href=\""@ + url + "\">"@ + label + "</a>"@,
{
    law_plain_html(label);
    lemma_plain_attribute(url);
}

proof fn lemma_plain_attribute(s: Seq<char>)
    requires
        forall|i: int|
            0 <= i < s.len() ==> #[trigger] s[i] != '&' && s[i] != '<' && s[i] != '>' && s[i]
                != '"',
    ensures
        escaping::html_attribute(s) == s,
    decreases s.len(),
{
    if s.len() > 0 {
        lemma_plain_attribute(s.drop_last());
        assert(s.drop_last().push(s.last()) =~= s);
        assert(s[s.len() - 1] == s.last());
        assert(escaping::html_attribute(s) =~= escaping::html_attribute(s.drop_last()) + seq![
            s.last(),
        ]);
    } else {
        assert(s =~= seq![]);
    }
}

/// The page of a property stands in a namespace of its own; those of other entities do not.
pub proof fn law_entity_pages(n: Seq<char>)
    ensures
        wikidata::entity_url(seq!['P'] + n) == "https://www.wikidata.org/wiki/Property:P"@ + n,
        wikidata::entity_url(seq!['Q'] + n) == "https://www.wikidata.org/wiki/Q"@ + n,
{
    reveal_strlit("https://www.wikidata.org/wiki/Property:");
    reveal_strlit("https://www.wikidata.org/wiki/Property:P");
    reveal_strlit("https://www.wikidata.org/wiki/");
    reveal_strlit("https://www.wikidata.org/wiki/Q");
    let p = seq!['P'] + n;
    let q = seq!['Q'] + n;
    assert(p[0] == 'P' && q[0] == 'Q');
    assert("https://www.wikidata.org/wiki/Property:"@ + p
        =~= "https://www.wikidata.org/wiki/Property:P"@ + n);
    assert("https://www.wikidata.org/wiki/"@ + q =~= "https://www.wikidata.org/wiki/Q"@ + n);
}

/// What a value is shown as: an entity as a link to it, an address as a link to itself, another
/// text as it is, and what is not known or not there in words.
pub proof fn law_values_shown(
    property_id: Seq<char>,
    snak: WikidataSnak,
    labels: Map<Seq<char>, WikidataLabelInfo>,
    formatters: Map<Seq<char>, String>,
)
    ensures
        ({
            let shown = wikidata::snak_text(property_id, snak, labels, formatters);
            let value = snak.datavalue->0;
            &&& snak.datavalue is None && text::opt_text(snak.snaktype) == Some("somevalue"@)
                ==> shown == Some("some value"@)
            &&& snak.datavalue is None && text::opt_text(snak.snaktype) == Some("novalue"@)
                ==> shown == Some("no value"@)
            &&& snak.datavalue is Some ==> shown is Some
            &&& snak.datavalue is Some && value.id is Some && wikidata::entity_id(
                (value.id->0)@,
            ) is Some ==> shown == Some(
                wikidata::entity_link(wikidata::entity_id((value.id->0)@)->0, labels),
            )
            &&& snak.datavalue is Some && value.id is None && value.numeric_id is None
                && value.plain is Some && snak.datatype is None ==> ({
                let s = (value.plain->0)@;
                let web = text::begins(s, "https://"@) || text::begins(s, "http://"@);
                &&& web ==> shown == Some(telegram::link(s, s))
                &&& !web ==> shown == Some(escaping::html_text(s))
            })
            &&& snak.datavalue is Some && value.id is None && value.numeric_id is None
                && value.plain is None && value.latitude is Some && value.longitude is Some
                ==> shown == Some(
                telegram::link(
                    "https://www.openstreetmap.org/?mlat="@ + (value.latitude->0)@ + "&mlon="@ + (
                    value.longitude->0)@ + "#map=15/"@ + (value.latitude->0)@ + "/"@ + (
                    value.longitude->0)@,
                    (value.latitude->0)@ + ", "@ + (value.longitude->0)@,
                ),
            )
        }),
{
    reveal_strlit("some value");
    reveal_strlit("no value");
    reveal_strlit("somevalue");
    reveal_strlit("novalue");
    law_plain_html("some value"@);
    law_plain_html("no value"@);
    assert("somevalue"@.len() == 9 && "novalue"@.len() == 7);
}

/// An entity is named by its label with its id behind it, or by its id where it has no label.
pub proof fn law_entity_names(id: Seq<char>, labels: Map<Seq<char>, WikidataLabelInfo>)
    ensures
        labels.dom().contains(id) && labels[id].label is Some && (labels[id].label->0)@ != id
            ==> wikidata::entity_link(id, labels) == telegram::link(
            wikidata::entity_url(id),
            (labels[id].label->0)@ + " ("@ + id + ")"@,
        ),
        !labels.dom().contains(id) ==> wikidata::entity_link(id, labels) == telegram::link(
            wikidata::entity_url(id),
            id,
        ),
{
}

/// An external id is put in place of `$1` in the pattern of its property.
pub proof fn law_external_ids(front: Seq<char>, back: Seq<char>, value: Seq<char>)
    requires
        text::begins(front, "https://"@),
        tokens::graphic(front),
        back.len() == 0 || tokens::graphic(back),
        !front.contains('$') && !back.contains('$'),
        tokens::graphic(value),
    ensures
        wikidata::external_url(front + "$1"@ + back, value) == Some(
            front + escaping::percent_encoded(value) + back,
        ),
{
    reveal_strlit("$1");
    reveal_strlit("https://");
    let f = front + "$1"@ + back;
    let e = escaping::percent_encoded(value);
    texts::law_trimmed(seq![], value, seq![]);
    assert(seq![] + value + seq![] =~= value);
    assert(f[0] == front[0]);
    assert(!text::is_white(f.last())) by {
        if back.len() > 0 {
            assert(f.last() == back.last());
        } else {
            assert(f.last() == '1');
        }
    }
    texts::law_trimmed(seq![], f, seq![]);
    assert(seq![] + f + seq![] =~= f);
    assert forall|i: int| 0 <= i < front.len() implies !text::occurs_at(f, "$1"@, i) by {
        if text::occurs_at(f, "$1"@, i) {
            assert(f.subrange(i, i + 2)[0] == f[i]);
            assert(f[i] == front[i] && front.contains(front[i]));
        }
    }
    texts::law_substituted(front, "$1"@, back, e);
    texts::law_holds(front, "$1"@, back, f);
    assert(!text::holds(back, "$1"@)) by {
        if text::holds(back, "$1"@) {
            let i = choose|i: int| text::occurs_at(back, "$1"@, i);
            assert(back.subrange(i, i + 2)[0] == back[i]);
            assert(back.contains(back[i]));
        }
    }
    texts::law_nothing_substituted(back, "$1"@, e);
    let url = front + e + back;
    assert(url.take(8) =~= front.take(8));
}

/// A label is taken in the language that is asked for, or else in English, or else in the first
/// one given.
pub proof fn law_localized(values: Vec<(String, String)>, language: Seq<char>, i: int)
    requires
        0 <= i < values@.len(),
        forall|k: int| 0 <= k < i ==> (#[trigger] values@[k]).0@ != values@[i].0@,
    ensures
        values@[i].0@ == language ==> wikidata::localized(Some(values), language) == Some(
            values@[i].1@,
        ),
        values@[i].0@ == "en"@ && (forall|k: int|
            0 <= k < values@.len() ==> (#[trigger] values@[k]).0@ != language)
            ==> wikidata::localized(Some(values), language) == Some(values@[i].1@),
        (forall|k: int|
            0 <= k < values@.len() ==> (#[trigger] values@[k]).0@ != language && values@[k].0@
                != "en"@) ==> wikidata::localized(Some(values), language) == Some(values@[0].1@),
{
    lemma_in_language(values@, values@[i].0@, i);
    if forall|k: int| 0 <= k < values@.len() ==> (#[trigger] values@[k]).0@ != language {
        lemma_not_in_language(values@, language);
    }
    if forall|k: int| 0 <= k < values@.len() ==> (#[trigger] values@[k]).0@ != "en"@ {
        lemma_not_in_language(values@, "en"@);
    }
}

proof fn lemma_in_language(values: Seq<(String, String)>, language: Seq<char>, i: int)
    requires
        0 <= i < values.len(),
        values[i].0@ == language,
        forall|k: int| 0 <= k < i ==> (#[trigger] values[k]).0@ != language,
    ensures
        wikidata::in_language(values, language) == Some(values[i].1@),
    decreases i,
{
    if i > 0 {
        let t = values.skip(1);
        assert(t[i - 1] == values[i]);
        assert forall|k: int| 0 <= k < i - 1 implies (#[trigger] t[k]).0@ != language by {
            assert(t[k] == values[k + 1]);
        }
        assert(values[0].0@ != language);
        lemma_in_language(t, language, i - 1);
    }
}

proof fn lemma_not_in_language(values: Seq<(String, String)>, language: Seq<char>)
    requires
        forall|k: int| 0 <= k < values.len() ==> (#[trigger] values[k]).0@ != language,
    ensures
        wikidata::in_language(values, language) is None,
    decreases values.len(),
{
    if values.len() > 0 {
        let t = values.skip(1);
        assert(values[0].0@ != language);
        assert forall|k: int| 0 <= k < t.len() implies (#[trigger] t[k]).0@ != language by {
            assert(t[k] == values[k + 1]);
        }
        lemma_not_in_language(t, language);
    }
}

/// A property is shown with its label, the number of its claims and the first values, at most
/// five; where fewer are shown, a further claim with a value adds that value behind them.
pub proof fn law_property_values(
    property_id: Seq<char>,
    snaks: Seq<WikidataSnak>,
    next: WikidataSnak,
    labels: Map<Seq<char>, WikidataLabelInfo>,
    formatters: Map<Seq<char>, String>,
)
    ensures
        ({
            let p = wikidata::property_of(property_id, snaks, labels, formatters);
            let q = wikidata::property_of(property_id, snaks.push(next), labels, formatters);
            let t = wikidata::snak_text(property_id, next, labels, formatters);
            &&& p.property_id == property_id
            &&& p.total_values == snaks.len()
            &&& p.values.len() <= 5
            &&& !labels.dom().contains(property_id) ==> p.property_label == property_id
            &&& labels.dom().contains(property_id) && labels[property_id].label is Some
                ==> p.property_label == (labels[property_id].label->0)@
            &&& t is Some && p.values.len() < 5 ==> q.values == p.values.push(t->0)
            &&& t is None || p.values.len() == 5 ==> q.values == p.values
            &&& snaks.len() == 0 ==> p.values.len() == 0
        }),
{
    assert(snaks.push(next).drop_last() =~= snaks);
    lemma_few_values(property_id, snaks, labels, formatters);
}

proof fn lemma_few_values(
    property_id: Seq<char>,
    snaks: Seq<WikidataSnak>,
    labels: Map<Seq<char>, WikidataLabelInfo>,
    formatters: Map<Seq<char>, String>,
)
    ensures
        wikidata::shown_values(property_id, snaks, labels, formatters).len() <= 5,
    decreases snaks.len(),
{
    if snaks.len() > 0 {
        lemma_few_values(property_id, snaks.drop_last(), labels, formatters);
    }
}

/// The line of a property: a link with its name, its values with commas between them, and how many
/// more there are.
pub proof fn law_property_line(p: wikidata::PropertyView)
    requires
        p.values.len() > 0,
        p.property_label != p.property_id,
    ensures
        ({
            let head = telegram::link(
                wikidata::entity_url(p.property_id),
                p.property_label + " ("@ + p.property_id + ")"@,
            ) + ": "@;
            let values = text::joined(p.values, ", "@);
            &&& p.total_values <= p.values.len() ==> wikidata::property_line(p) == head + values
            &&& p.total_values > p.values.len() ==> wikidata::property_line(p) == head + values
                + ", +"@ + numbers::numeral((p.total_values - p.values.len()) as nat) + " more"@
        }),
{
    let head = telegram::link(
        wikidata::entity_url(p.property_id),
        p.property_label + " ("@ + p.property_id + ")"@,
    ) + ": "@;
    if p.total_values > p.values.len() {
        reveal_strlit(", ");
        reveal_strlit("+");
        reveal_strlit(", +");
        let n = numbers::numeral((p.total_values - p.values.len()) as nat);
        let more = "+"@ + n + " more"@;
        assert(p.values.push(more) =~= p.values + seq![more]);
        texts::law_joined_in_order(p.values, seq![more], ", "@);
        assert(wikidata::property_line(p) =~= head + text::joined(p.values, ", "@) + ", +"@ + n
            + " more"@);
    }
}

/// What is known of an item: its label and description where the labels have them, or else those
/// of the entity; all its properties are counted and shown.
pub proof fn law_item_claims(
    item: Seq<char>,
    language: Seq<char>,
    entity: wikidata::WikidataEntity,
    labels: Map<Seq<char>, WikidataLabelInfo>,
    formatters: Map<Seq<char>, String>,
)
    ensures
        ({
            let shown = wikidata::item_claims(item, language, entity, labels, formatters);
            &&& shown.item == item
            &&& labels.dom().contains(item) && labels[item].label is Some ==> shown.label == Some(
                (labels[item].label->0)@,
            )
            &&& !labels.dom().contains(item) ==> shown.label == wikidata::localized(
                entity.labels,
                language,
            )
            &&& labels.dom().contains(item) && labels[item].description is Some
                ==> shown.description == Some((labels[item].description->0)@)
            &&& !labels.dom().contains(item) ==> shown.description == wikidata::localized(
                entity.descriptions,
                language,
            )
            &&& entity.claims is Some ==> shown.property_count == (entity.claims->0)@.len()
            &&& entity.claims is None ==> shown.property_count == 0 && shown.properties.len() == 0
            &&& shown.properties.len() == shown.property_count
        }),
{
    crate::ordering::law_sorted_by_text(
        wikidata::properties_of(wikidata::claims_of(entity), labels, formatters),
        wikidata::by_label(),
    );
}

/// Batches of ids, joined by bars, hold all ids in order.
pub proof fn law_batches_hold_all(ids: Seq<Seq<char>>)
    requires
        ids.len() > 0,
    ensures
        wikidata::batches(ids).len() > 0,
        text::joined(wikidata::batches(ids), "|"@) == text::joined(ids, "|"@),
        ids.len() <= 50 ==> wikidata::batches(ids).len() == 1,
        ids.len() > 50 ==> wikidata::batches(ids)[0] == text::joined(ids.take(50), "|"@),
    decreases ids.len(),
{
    if ids.len() > 50 {
        let head = ids.take(50);
        let rest = ids.skip(50);
        law_batches_hold_all(rest);
        assert(ids =~= head + rest);
        texts::law_joined_in_order(head, rest, "|"@);
        texts::law_joined_in_order(
            seq![text::joined(head, "|"@)],
            wikidata::batches(rest),
            "|"@,
        );
    }
}

/// The lines over the properties: the item with its name, its description where it has one, and the
/// number of its properties.
pub proof fn law_claims_heading(claims: wikidata::ClaimsView)
    ensures
        ({
            let lines = wikidata::head_lines(claims);
            &&& lines.len() == (if claims.description is Some {
                3nat
            } else {
                2nat
            })
            &&& claims.label is Some && claims.label->0 != claims.item ==> lines[0] == "<b>"@
                + telegram::link(
                wikidata::entity_url(claims.item),
                claims.label->0 + " ("@ + claims.item + ")"@,
            ) + "</b>"@
            &&& claims.label is None ==> lines[0] == "<b>"@ + telegram::link(
                wikidata::entity_url(claims.item),
                claims.item,
            ) + "</b>"@
            &&& claims.description is Some ==> lines[1] == escaping::html_text(
                claims.description->0,
            )
            &&& lines.last() == "Properties: "@ + numbers::numeral(claims.property_count)
        }),
{
}

} // verus!
