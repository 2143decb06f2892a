//! Laws on the claims of Wikidata: ids, names, single values, and what is shown of an item.

use vstd::prelude::*;
use crate::escaping;
use crate::laws::claims;
use crate::laws::texts;
use crate::laws::tokens;
use crate::numbers;
use crate::telegram;
use crate::text;
use crate::wikidata;
use crate::wikidata::{ClaimsView, PropertyView, WikidataEntity, WikidataLabelInfo, WikidataSnak, WikidataValue};

verus! {

// Ids.

/// An entity that is given by its number and its kind has the letter of that kind.
pub proof fn law_numbered_entities(value: WikidataValue, n: u64)
    requires
        value.id is None,
        value.numeric_id == Some(n),
        value.entity_type is Some,
    ensures
        ({
            let kind = (value.entity_type->0)@;
            let number = numbers::numeral(n as nat);
            &&& kind == "item"@ ==> wikidata::value_id(value) == Some(seq!['Q'] + number)
            &&& kind == "property"@ ==> wikidata::value_id(value) == Some(seq!['P'] + number)
            &&& kind == "lexeme"@ ==> wikidata::value_id(value) == Some(seq!['L'] + number)
            &&& kind != "item"@ && kind != "property"@ && kind != "lexeme"@ ==> wikidata::value_id(
                value,
            ) is None
        }),
{
    reveal_strlit("item");
    reveal_strlit("property");
    reveal_strlit("lexeme");
    reveal_strlit("Q");
    reveal_strlit("P");
    reveal_strlit("L");
    assert("Q"@ =~= seq!['Q'] && "P"@ =~= seq!['P'] && "L"@ =~= seq!['L']);
    assert("item"@.len() == 4 && "property"@.len() == 8 && "lexeme"@.len() == 6);
}

/// The entities whose names are looked up: the properties of an item, and what their values and
/// the units of these refer to, in order.
pub proof fn law_entities_named(
    list: Seq<(String, Vec<WikidataSnak>)>,
    c: (String, Vec<WikidataSnak>),
    snaks: Seq<WikidataSnak>,
    s: WikidataSnak,
)
    ensures
        wikidata::claims_ids(list.push(c)) == wikidata::claims_ids(list) + seq![c.0@]
            + wikidata::snaks_ids(c.1@),
        wikidata::claims_ids(seq![]) == Seq::<Seq<char>>::empty(),
        wikidata::snaks_ids(snaks.push(s)) == wikidata::snaks_ids(snaks) + wikidata::snak_ids(s),
        wikidata::snaks_ids(seq![]) == Seq::<Seq<char>>::empty(),
        s.datavalue is None ==> wikidata::snak_ids(s) == Seq::<Seq<char>>::empty(),
        s.datavalue is Some && wikidata::value_id(s.datavalue->0) is Some && (s.datavalue->0).unit
            is None ==> wikidata::snak_ids(s) == seq![wikidata::value_id(s.datavalue->0)->0],
        s.datavalue is Some && wikidata::value_id(s.datavalue->0) is None && (s.datavalue->0).unit
            is Some && wikidata::id_in_url(((s.datavalue->0).unit->0)@) is Some
            ==> wikidata::snak_ids(s) == seq![
            wikidata::id_in_url(((s.datavalue->0).unit->0)@)->0,
        ],
        s.datavalue is Some && wikidata::value_id(s.datavalue->0) is None && (s.datavalue->0).unit
            is None ==> wikidata::snak_ids(s) == Seq::<Seq<char>>::empty(),
{
    assert(list.push(c).drop_last() =~= list);
    assert(snaks.push(s).drop_last() =~= snaks);
    assert(wikidata::claims_ids(list.push(c)) =~= wikidata::claims_ids(list) + seq![c.0@]
        + wikidata::snaks_ids(c.1@));
    if s.datavalue is Some {
        let v = s.datavalue->0;
        if wikidata::value_id(v) is Some && v.unit is None {
            assert(wikidata::snak_ids(s) =~= seq![wikidata::value_id(v)->0]);
        }
        if wikidata::value_id(v) is None && v.unit is Some && wikidata::id_in_url((v.unit->0)@)
            is Some {
            assert(wikidata::snak_ids(s) =~= seq![wikidata::id_in_url((v.unit->0)@)->0]);
        }
        if wikidata::value_id(v) is None && v.unit is None {
            assert(wikidata::snak_ids(s) =~= Seq::<Seq<char>>::empty());
        }
    }
}

/// The properties whose addresses are looked up are those with an external id among their values,
/// in order.
pub proof fn law_external_properties(
    list: Seq<(String, Vec<WikidataSnak>)>,
    c: (String, Vec<WikidataSnak>),
    i: int,
)
    ensures
        ({
            let before = wikidata::external_properties(list);
            let after = wikidata::external_properties(list.push(c));
            &&& 0 <= i < c.1@.len() && text::opt_text(c.1@[i].datatype) == Some("external-id"@)
                && c.1@[i].datavalue is Some && (c.1@[i].datavalue->0).plain is Some ==> after
                == before.push(c.0@)
            &&& (forall|k: int|
                0 <= k < c.1@.len() ==> text::opt_text((#[trigger] c.1@[k]).datatype) != Some(
                    "external-id"@,
                )) ==> after == before
        }),
{
    let all = list.push(c);
    assert(all.drop_last() =~= list);
    assert(all.last() == c);
    if 0 <= i < c.1@.len() && text::opt_text(c.1@[i].datatype) == Some("external-id"@)
        && c.1@[i].datavalue is Some && (c.1@[i].datavalue->0).plain is Some {
        assert(wikidata::external_snak(c.1@[i]));
        assert(wikidata::external_snak(all.last().1@[i]));
    }
    if exists|k: int| 0 <= k < all.last().1@.len() && wikidata::external_snak(
        #[trigger] all.last().1@[k],
    ) {
        let k = choose|k: int|
            0 <= k < all.last().1@.len() && wikidata::external_snak(#[trigger] all.last().1@[k]);
        assert(text::opt_text(c.1@[k].datatype) == Some("external-id"@));
    }
}

/// The address pattern of a property is the first web address with a place for the value among
/// its own formatters.
pub proof fn law_formatters(
    entity: WikidataEntity,
    rest: Seq<WikidataSnak>,
    s: WikidataSnak,
    pattern: Seq<char>,
)
    requires
        s.datavalue is Some,
        (s.datavalue->0).plain is Some,
        ((s.datavalue->0).plain->0)@ == pattern,
    ensures
        (text::begins(pattern, "https://"@) || text::begins(pattern, "http://"@)) && text::holds(
            pattern,
            "$1"@,
        ) ==> wikidata::first_pattern(seq![s] + rest) == Some(pattern),
        !(text::begins(pattern, "https://"@) || text::begins(pattern, "http://"@)) || !text::holds(
            pattern,
            "$1"@,
        ) ==> wikidata::first_pattern(seq![s] + rest) == wikidata::first_pattern(rest),
        entity.claims is None ==> wikidata::formatter_of(entity) is None,
        entity.claims is Some && (entity.claims->0)@.len() > 0 && (entity.claims->0)@[0].0@
            == "P1630"@ ==> wikidata::formatter_of(entity) == wikidata::first_pattern(
            (entity.claims->0)@[0].1@,
        ),
{
    let all = seq![s] + rest;
    assert(all[0] == s);
    assert(all.skip(1) =~= rest);
}

/// A language is a code of small letters and hyphens, whatever the case it was written in; anything
/// else counts as English.
pub proof fn law_language_codes(w: Seq<char>, code: Seq<char>, bad: Seq<char>, i: int)
    requires
        texts::all_in(w, text::white_class()),
        tokens::small_letters(code),
        tokens::graphic(bad),
        0 <= i < bad.len(),
        '0' <= bad[i] <= '9' || bad[i] == '|' || bad[i] == '_',
    ensures
        wikidata::language_code(w + code + w) == code,
        wikidata::language_code(w) == "en"@,
        wikidata::language_code(bad) == "en"@,
{
    let e = Seq::<char>::empty();
    texts::law_space(code[0]);
    texts::law_space(code.last());
    texts::law_trimmed(w, code, w);
    assert(text::lowered(code) =~= code);
    texts::law_trimmed(w, e, e);
    assert(w + e + e =~= w);
    assert(text::lowered(e) =~= e);
    texts::law_trimmed(e, bad, e);
    assert(e + bad + e =~= bad);
    texts::law_lowered(bad, i);
    let t = text::lowered(bad);
    assert(!wikidata::code_char(t[i]));
}

// Values.

/// What is shown of a value that is no entity: a link for an external id with a known pattern and
/// for a file, else the text, or a link where it is an address.
pub proof fn law_plain_values(
    id: Seq<char>,
    value: Seq<char>,
    formatters: Map<Seq<char>, String>,
)
    ensures
        formatters.dom().contains(id) && wikidata::external_url(formatters[id]@, value) is Some
            ==> wikidata::plain_text(id, Some("external-id"@), value, formatters) == telegram::link(
            wikidata::external_url(formatters[id]@, value)->0,
            value,
        ),
        !formatters.dom().contains(id) && !text::begins(value, "https://"@) && !text::begins(
            value,
            "http://"@,
        ) ==> wikidata::plain_text(id, Some("external-id"@), value, formatters)
            == escaping::html_text(value),
        wikidata::plain_text(id, Some("commonsMedia"@), value, formatters) == telegram::link(
            wikidata::file_url(value),
            value,
        ),
        text::begins(value, "https://"@) || text::begins(value, "http://"@)
            ==> wikidata::plain_text(id, Some("url"@), value, formatters) == telegram::link(
            value,
            value,
        ),
        !text::begins(value, "https://"@) && !text::begins(value, "http://"@)
            ==> wikidata::plain_text(id, Some("string"@), value, formatters)
            == escaping::html_text(value),
{
    reveal_strlit("external-id");
    reveal_strlit("commonsMedia");
    reveal_strlit("url");
    reveal_strlit("string");
    assert("external-id"@.len() == 11 && "commonsMedia"@.len() == 12 && "url"@.len() == 3
        && "string"@.len() == 6);
}

/// The page of a file: its name gets the namespace where it has none, and underscores for blanks.
pub proof fn law_file_pages(name: Seq<char>)
    requires
        tokens::graphic(name),
        !text::begins(text::lowered(name), "file:"@),
    ensures
        wikidata::file_url(name) == "https://commons.wikimedia.org/wiki/"@
            + escaping::percent_encoded("File:"@ + name),
{
    let e = Seq::<char>::empty();
    texts::law_trimmed(e, name, e);
    assert(e + name + e =~= name);
    reveal_strlit("_");
    reveal_strlit("File:");
    assert("_"@ =~= seq!['_']);
    let t = "File:"@ + name;
    texts::law_replaced_character(t, ' ', '_');
    let r = Seq::new(
        t.len(),
        |i: int|
            if t[i] == ' ' {
                '_'
            } else {
                t[i]
            },
    );
    assert forall|i: int| 0 <= i < t.len() implies t[i] != ' ' by {
        if i >= 5 {
            assert(t[i] == name[i - 5]);
        }
    }
    assert(r =~= t);
}

/// A place comes before a time, a time before an amount, an amount before a text, and a value of
/// none of these is shown as it was written, shortened.
pub proof fn law_compound_values(
    value: WikidataValue,
    labels: Map<Seq<char>, WikidataLabelInfo>,
)
    ensures
        ({
            let shown = wikidata::compound_text(value, labels);
            let place = value.latitude is Some && value.longitude is Some;
            &&& !place && wikidata::time_text(value) is Some ==> shown == wikidata::time_text(
                value,
            )->0
            &&& !place && value.time is None && value.amount is Some ==> shown
                == wikidata::quantity_text(value, labels)->0
            &&& !place && value.time is None && value.amount is None && value.text is Some
                && value.language is Some ==> shown == escaping::html_text((value.text->0)@) + " ("@
                + escaping::html_text((value.language->0)@) + ")"@
            &&& !place && value.time is None && value.amount is None && value.text is Some
                && value.language is None ==> shown == escaping::html_text((value.text->0)@)
            &&& !place && value.time is None && value.amount is None && value.text is None ==> shown
                == escaping::html_text(text::shortened(value.json@, 240))
        }),
{
}

/// A time before our era keeps its sign.
pub proof fn law_old_times(
    value: WikidataValue,
    year: Seq<char>,
    month: Seq<char>,
    day: Seq<char>,
    rest: Seq<char>,
)
    requires
        tokens::digits(year) && tokens::digits(month) && tokens::digits(day),
        month != seq!['0', '0'] && day != seq!['0', '0'],
        value.time is Some,
        (value.time->0)@ == seq!['-'] + year + seq!['-'] + month + seq!['-'] + day + seq!['T']
            + rest,
    ensures
        wikidata::time_text(value) == Some(
            seq!['-'] + year + seq!['-'] + month + seq!['-'] + day,
        ),
{
    let date = seq!['-'] + year + seq!['-'] + month + seq!['-'] + day;
    let raw = (value.time->0)@;
    let e = Seq::<char>::empty();
    assert(raw =~= date + seq!['T'] + rest);
    assert(raw[0] == '-');
    texts::law_leading_dropped(e, raw, text::just('+'));
    assert(e + raw =~= raw);
    assert forall|i: int| 0 <= i < date.len() implies '0' <= #[trigger] date[i] <= '9' || date[i]
        == '-' by {
        lemma_date_char(year, month, day, i);
    }
    assert(!date.contains('T'));
    texts::law_cut_first(date, 'T', rest);
    reveal_strlit("-00");
    if text::finishes(date, "-00"@) {
        let t = date.skip(date.len() - 3);
        assert(t[0] == '-' && t[1] == '0' && t[2] == '0');
        let d = day.len();
        assert(date[date.len() - 1] == day[d - 1]);
        if d == 1 {
            assert(date[date.len() - 2] == '-');
        } else if d == 2 {
            assert(date[date.len() - 2] == day[0]);
            assert(day =~= seq!['0', '0']);
        } else {
            assert(date[date.len() - 3] == day[d - 3]);
        }
        assert(false);
    }
    claims::law_plain_html(date);
}

proof fn lemma_date_char(year: Seq<char>, month: Seq<char>, day: Seq<char>, i: int)
    requires
        tokens::digits(year) && tokens::digits(month) && tokens::digits(day),
        0 <= i < 3 + year.len() + month.len() + day.len(),
    ensures
        ({
            let date = seq!['-'] + year + seq!['-'] + month + seq!['-'] + day;
            '0' <= date[i] <= '9' || date[i] == '-'
        }),
{
    let date = seq!['-'] + year + seq!['-'] + month + seq!['-'] + day;
    let y = year.len();
    let m = month.len();
    if i == 0 {
        assert(date[i] == '-');
    } else if i <= y {
        assert(date[i] == year[i - 1]);
    } else if i == y + 1 {
        assert(date[i] == '-');
    } else if i <= y + 1 + m {
        assert(date[i] == month[i - y - 2]);
    } else if i == y + m + 2 {
        assert(date[i] == '-');
    } else {
        assert(date[i] == day[i - y - m - 3]);
    }
}

// What is shown of an item.

/// The message on an item is its heading and a line for each of the properties shown, in order; it
/// ends with how many are shown where not all are.
pub proof fn law_claims_lines(c: ClaimsView, k: nat)
    requires
        k <= c.properties.len(),
    ensures
        ({
            let lines = wikidata::head_lines(c) + Seq::new(
                k,
                |i: int| wikidata::property_line(c.properties[i]),
            );
            let closing = "Shown first "@ + numbers::numeral(k) + " of "@ + numbers::numeral(
                c.properties.len(),
            ) + " properties."@;
            &&& k == c.properties.len() ==> wikidata::text_showing(c, k) == text::joined(
                lines,
                seq!['\n'],
            )
            &&& k < c.properties.len() ==> wikidata::text_showing(c, k) == text::joined(
                lines + seq![closing],
                seq!['\n'],
            )
        }),
{
    reveal_strlit("\n");
    assert("\n"@ =~= seq!['\n']);
    let lines = wikidata::head_lines(c) + Seq::new(
        k,
        |i: int| wikidata::property_line(c.properties[i]),
    );
    assert(wikidata::property_lines(c.properties, k) =~= Seq::new(
        k,
        |i: int| wikidata::property_line(c.properties[i]),
    ));
    let closing = wikidata::closing_line(k, c.properties.len());
    assert(lines.push(closing) =~= lines + seq![closing]);
}

/// As many properties are shown as fit, and thirty at most: all of a short list, where they fit.
pub proof fn law_claims_shown(c: ClaimsView, limit: nat)
    ensures
        c.properties.len() <= 30 && wikidata::text_showing(c, c.properties.len()).len() <= limit
            ==> wikidata::claims_text(c, limit) == wikidata::text_showing(c, c.properties.len()),
        c.properties.len() > 30 && wikidata::text_showing(c, 30).len() <= limit
            ==> wikidata::claims_text(c, limit) == wikidata::text_showing(c, 30),
        text::joined(wikidata::head_lines(c), seq!['\n']).len() <= limit ==> wikidata::claims_text(
            c,
            limit,
        ).len() <= limit,
{
    reveal_strlit("\n");
    assert("\n"@ =~= seq!['\n']);
    wikidata::law_claims_fit(c, limit);
}

/// One property fewer is shown only where one more does not fit.
pub proof fn law_claims_as_many_as_fit(c: ClaimsView, limit: nat, k: nat)
    requires
        k <= c.properties.len(),
        k <= 30,
        wikidata::text_showing(c, k).len() <= limit,
        forall|m: nat|
            k < m <= c.properties.len() && m <= 30 ==> (#[trigger] wikidata::text_showing(c, m)).len()
                > limit,
    ensures
        wikidata::claims_text(c, limit) == wikidata::text_showing(c, k),
{
    wikidata::law_claims_fit(c, limit);
    lemma_shown(c, limit, k, wikidata::most_shown(c));
}

proof fn lemma_shown(c: ClaimsView, limit: nat, k: nat, n: nat)
    requires
        k <= n <= c.properties.len(),
        n <= 30,
        wikidata::text_showing(c, k).len() <= limit,
        forall|m: nat|
            k < m <= c.properties.len() && m <= 30 ==> (#[trigger] wikidata::text_showing(c, m)).len()
                > limit,
    ensures
        wikidata::shown_within(c, limit, n) == Some(k),
    decreases n,
{
    if n > k {
        assert(wikidata::text_showing(c, n).len() > limit);
        lemma_shown(c, limit, k, (n - 1) as nat);
    }
}

/// A property without a value that can be shown says so.
pub proof fn law_property_without_value(p: PropertyView)
    requires
        p.values.len() == 0,
        p.total_values <= 1,
    ensures
        wikidata::property_line(p) == telegram::link(
            wikidata::entity_url(p.property_id),
            if p.property_label == p.property_id {
                p.property_id
            } else {
                p.property_label + " ("@ + p.property_id + ")"@
            },
        ) + ": no value"@,
{
    reveal_strlit("no value");
    reveal_strlit(": ");
    reveal_strlit(": no value");
    claims::law_plain_html("no value"@);
    texts::law_joined_few("no value"@, ", "@);
    let head = telegram::link(
        wikidata::entity_url(p.property_id),
        wikidata::named(p.property_label, p.property_id),
    );
    assert(wikidata::value_texts(p) =~= seq!["no value"@]);
    assert(": "@ + "no value"@ =~= ": no value"@);
    assert(head + ": "@ + "no value"@ =~= head + (": "@ + "no value"@));
}

/// The properties of an item are shown in the order of their names, whatever the case.
pub proof fn law_property_order(
    item: Seq<char>,
    language: Seq<char>,
    entity: WikidataEntity,
    labels: Map<Seq<char>, WikidataLabelInfo>,
    formatters: Map<Seq<char>, String>,
    i: int,
    j: int,
)
    requires
        0 <= i < j < wikidata::item_claims(item, language, entity, labels, formatters).properties.len(),
    ensures
        ({
            let shown = wikidata::item_claims(
                item,
                language,
                entity,
                labels,
                formatters,
            ).properties;
            !text::precedes(
                text::lower_text(shown[j].property_label),
                text::lower_text(shown[i].property_label),
            )
        }),
{
    wikidata::law_properties_in_order(item, language, entity, labels, formatters);
    let shown = wikidata::item_claims(item, language, entity, labels, formatters).properties;
    assert(wikidata::by_label()(shown[i]) == text::lower_text(shown[i].property_label));
    assert(wikidata::by_label()(shown[j]) == text::lower_text(shown[j].property_label));
}

} // verus!
