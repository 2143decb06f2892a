//! Laws on updates: what is let in, what is done once, and how many results are shown.

use vstd::prelude::*;
use crate::bot;
use crate::bot::Entry;
use crate::config::Config;
use crate::escaping;
use crate::laws::formats;
use crate::laws::texts;
use crate::models;
use crate::models::{DeliveryMode, FileHit, FileType};
use crate::numbers;
use crate::pagination;
use crate::telegram::Update;
use crate::text;

verus! {

// What is let in.

/// Without a secret nothing is refused; with one just what does not carry it. What is let in goes
/// to the test endpoint where that is switched on and asked for, and is an update otherwise.
pub proof fn law_entries(config: Config, path: Seq<char>, secret: Option<Seq<char>>)
    ensures
        ({
            let entry = bot::entry_of(config, path, secret);
            let asked = config.telegram_webhook_secret;
            &&& asked is None ==> entry != Entry::Refuse
            &&& asked is Some && secret == Some((asked->0)@) ==> entry != Entry::Refuse
            &&& asked is Some && secret is Some && secret->0 != (asked->0)@ ==> entry
                == Entry::Refuse
            &&& entry != Entry::Refuse && config.enable_test_endpoint && path == "/__test"@ ==> entry
                == Entry::Test
            &&& !config.enable_test_endpoint || path != "/__test"@ ==> entry != Entry::Test
        }),
{
}

/// A query without the parameter of the endpoint stands for the sample query.
pub proof fn law_sample_query(name: Seq<char>, value: Seq<char>)
    requires
        !name.contains('=') && !name.contains('&') && !value.contains('&'),
        name != seq!['q'],
    ensures
        bot::tested_query(name + seq!['='] + value) == "jpg Minsk"@,
{
    reveal_strlit("q");
    assert("q"@ =~= seq!['q']);
    let s = name + seq!['='] + value;
    lemma_without(name, value, '=', '&');
    text::lemma_position(s, '&', 0);
    lemma_one_part(s, '&');
    texts::law_cut_first(name, '=', value);
    let p = text::parts(s, '&');
    assert(p[0] == s && p.skip(1) =~= Seq::<Seq<char>>::empty());
    assert(bot::parameter_q(p.skip(1)) is None);
    assert(bot::parameter_q(p) is None);
}

/// A query that carries a text, percent-encoded, in the parameter of the endpoint asks for it.
pub proof fn law_tested_query(v: Seq<char>)
    ensures
        bot::tested_query("q="@ + escaping::percent_encoded(v)) == v,
{
    reveal_strlit("q");
    reveal_strlit("q=");
    let w = escaping::percent_encoded(v);
    let s = "q="@ + w;
    assert(s =~= "q"@ + seq!['='] + w);
    formats::law_percent_text(v, '&');
    lemma_without("q"@, w, '=', '&');
    lemma_one_part(s, '&');
    texts::law_cut_first("q"@, '=', w);
    formats::law_percent_round_trip(v);
    let p = text::parts(s, '&');
    assert(p[0] == s);
    assert(bot::parameter_q(p) == Some(w));
}

proof fn lemma_without(a: Seq<char>, b: Seq<char>, x: char, y: char)
    requires
        x != y,
        !a.contains(y) && !b.contains(y),
    ensures
        !(a + seq![x] + b).contains(y),
{
    let s = a + seq![x] + b;
    if s.contains(y) {
        let i = choose|i: int| 0 <= i < s.len() && s[i] == y;
        if i < a.len() {
            assert(a[i] == y);
        } else if i > a.len() {
            assert(b[i - a.len() - 1] == y);
        }
    }
}

/// A text without the separator is its own only part.
pub proof fn lemma_one_part(s: Seq<char>, x: char)
    requires
        !s.contains(x),
    ensures
        text::parts(s, x) == seq![s],
{
    texts::law_parts_join(s, x);
    let p = text::parts(s, x);
    if p.len() > 1 {
        texts::law_joined_in_order(p.take(1), p.skip(1), seq![x]);
        assert(p.take(1) + p.skip(1) =~= p);
        let a = text::joined(p.take(1), seq![x]);
        let b = text::joined(p.skip(1), seq![x]);
        assert(s == a + seq![x] + b);
        assert(s[a.len() as int] == x);
    }
    assert(p =~= seq![p[0]]);
    texts::law_joined_few(p[0], seq![x]);
}

/// Parameters before the one of the endpoint are passed over.
pub proof fn law_other_parameters(name: Seq<char>, value: Seq<char>, rest: Seq<Seq<char>>)
    requires
        !name.contains('='),
        name != seq!['q'],
    ensures
        bot::parameter_q(seq![name + seq!['='] + value] + rest) == bot::parameter_q(rest),
        bot::parameter_q(seq![seq!['q', '='] + value] + rest) == Some(value),
        bot::parameter_q(seq![]) is None,
{
    reveal_strlit("q");
    assert("q"@ =~= seq!['q']);
    let s = name + seq!['='] + value;
    texts::law_cut_first(name, '=', value);
    let a = seq![s] + rest;
    assert(a[0] == s && a.skip(1) =~= rest);
    let t = seq!['q', '='] + value;
    assert(t =~= seq!['q'] + seq!['='] + value);
    texts::law_cut_first(seq!['q'], '=', value);
    let b = seq![t] + rest;
    assert(b[0] == t);
}

/// A button, an inline query and a message are told apart in this order.
pub proof fn law_update_kinds(update: Update)
    ensures
        ({
            let kind = bot::kind_of(update);
            &&& update.callback_query is Some ==> kind == "callback_query"@
            &&& update.callback_query is None && update.inline_query is Some ==> kind
                == "inline_query"@
            &&& update.callback_query is None && update.inline_query is None && update.message
                is Some ==> kind == "message"@
            &&& update.callback_query is None && update.inline_query is None && update.message
                is None ==> kind == "unknown"@
        }),
{
}

// What is done once.

/// An update with an id is remembered for a day, under a key of its own.
pub proof fn law_updates_are_done_once(update: Update, other: i64)
    requires
        update.update_id is Some,
    ensures
        ({
            let keys = bot::keys_of(update);
            let id = update.update_id->0;
            &&& keys.len() >= 1
            &&& keys[0].retention_seconds == 24 * 60 * 60
            &&& keys[0].key == "TELEGRAM_UPDATE#"@ + numbers::signed_numeral(id as int)
            &&& keys[0].key == bot::update_key(other) ==> id == other
            &&& update.callback_query is None ==> keys.len() == 1
        }),
{
    let id = update.update_id->0;
    let p = "TELEGRAM_UPDATE#"@;
    let a = numbers::signed_numeral(id as int);
    let b = numbers::signed_numeral(other as int);
    if p + a == p + b {
        assert((p + a).skip(p.len() as int) =~= a);
        assert((p + b).skip(p.len() as int) =~= b);
        lemma_numerals_differ(id as int, other as int);
    }
}

/// Different numbers are written in different ways.
proof fn lemma_numerals_differ(a: int, b: int)
    ensures
        numbers::signed_numeral(a) == numbers::signed_numeral(b) ==> a == b,
        !numbers::signed_numeral(a).contains('#'),
        numbers::signed_numeral(a).len() > 0,
        numbers::signed_numeral(a)[0] == '-' || '0' <= numbers::signed_numeral(a)[0] <= '9',
{
    let x = numbers::signed_numeral(a);
    let y = numbers::signed_numeral(b);
    let ma = if a < 0 {
        (-a) as nat
    } else {
        a as nat
    };
    let mb = if b < 0 {
        (-b) as nat
    } else {
        b as nat
    };
    numbers::law_numeral_round_trip(ma);
    numbers::law_numeral_round_trip(mb);
    let na = numbers::numeral(ma);
    let nb = numbers::numeral(mb);
    assert(text::is_digit(na[0]) && text::is_digit(nb[0]));
    if a < 0 {
        assert(x.skip(1) =~= na);
    }
    if b < 0 {
        assert(y.skip(1) =~= nb);
    }
    if x.contains('#') {
        let i = choose|i: int| 0 <= i < x.len() && x[i] == '#';
        if a < 0 {
            assert(i > 0);
            assert(na[i - 1] == '#');
        }
        assert(false);
    }
}

/// A button that opens a file or a category is answered once in half a minute: its key names the
/// user, the chat, the message and the button, so that none of them can differ under one key.
pub proof fn law_buttons_are_done_once(
    user: i64,
    chat: i64,
    message: Option<i64>,
    data: Seq<char>,
    user_b: i64,
    chat_b: i64,
    message_b: Option<i64>,
    data_b: Seq<char>,
)
    ensures
        bot::action_key(user, chat, message, data) == bot::action_key(
            user_b,
            chat_b,
            message_b,
            data_b,
        ) ==> user == user_b && chat == chat_b && message == message_b && data == data_b,
{
    let p = "TELEGRAM_CALLBACK_ACTION#"@;
    let k = bot::action_key(user, chat, message, data);
    let kb = bot::action_key(user_b, chat_b, message_b, data_b);
    if k == kb {
        let u = numbers::signed_numeral(user as int);
        let ub = numbers::signed_numeral(user_b as int);
        let c = numbers::signed_numeral(chat as int);
        let cb = numbers::signed_numeral(chat_b as int);
        let m = message_text(message);
        let mb = message_text(message_b);
        reveal_strlit("#");
        assert("#"@ =~= seq!['#']);
        lemma_numerals_differ(user as int, user_b as int);
        lemma_numerals_differ(user_b as int, user as int);
        lemma_numerals_differ(chat as int, chat_b as int);
        lemma_numerals_differ(chat_b as int, chat as int);
        lemma_message_texts(message, message_b);
        lemma_message_texts(message_b, message);
        let r3 = m + seq!['#'] + data;
        let r2 = c + seq!['#'] + r3;
        let r1 = u + seq!['#'] + r2;
        let r3b = mb + seq!['#'] + data_b;
        let r2b = cb + seq!['#'] + r3b;
        let r1b = ub + seq!['#'] + r2b;
        assert(k =~= p + r1);
        assert(kb =~= p + r1b);
        assert((p + r1).skip(p.len() as int) =~= r1);
        assert((p + r1b).skip(p.len() as int) =~= r1b);
        texts::law_cut_first(u, '#', r2);
        texts::law_cut_first(ub, '#', r2b);
        assert(u == ub && r2 == r2b);
        texts::law_cut_first(c, '#', r3);
        texts::law_cut_first(cb, '#', r3b);
        assert(c == cb && r3 == r3b);
        texts::law_cut_first(m, '#', data);
        texts::law_cut_first(mb, '#', data_b);
        assert(m == mb && data == data_b);
    }
}

/// How a message is named in a key.
spec fn message_text(message: Option<i64>) -> Seq<char> {
    match message {
        Some(id) => numbers::signed_numeral(id as int),
        None => "unknown"@,
    }
}

proof fn lemma_message_texts(a: Option<i64>, b: Option<i64>)
    ensures
        message_text(a) == message_text(b) ==> a == b,
        !message_text(a).contains('#'),
{
    reveal_strlit("unknown");
    assert("unknown"@[0] == 'u');
    if a is Some && b is Some {
        lemma_numerals_differ(a->0 as int, b->0 as int);
    }
    if a is Some {
        lemma_numerals_differ(a->0 as int, 0);
    }
    if b is Some {
        lemma_numerals_differ(b->0 as int, 0);
    }
}

/// Just the buttons that open a file or a category are kept so; they are kept for half a minute.
pub proof fn law_opening_buttons_are_kept(update: Update, rest: Seq<char>)
    requires
        update.update_id is None,
        update.callback_query is Some,
        (update.callback_query->0).data is Some,
        (update.callback_query->0).message is Some,
    ensures
        ({
            let c = update.callback_query->0;
            let data = (c.data->0)@;
            let m = c.message->0;
            let keys = bot::keys_of(update);
            &&& data == "file:"@ + rest || data == "cat:"@ + rest ==> keys.len() == 1
                && keys[0].retention_seconds == 30 && keys[0].key == bot::action_key(
                c.from.id,
                m.chat.id,
                m.message_id,
                data,
            )
            &&& data == "pg:"@ + rest || data == "pref:"@ + rest ==> keys.len() == 0
        }),
{
    reveal_strlit("file:");
    reveal_strlit("cat:");
    reveal_strlit("pg:");
    reveal_strlit("pref:");
    reveal_strlit("file");
    reveal_strlit("cat");
    assert("file:"@ + rest =~= "file"@ + seq![':'] + rest);
    assert("cat:"@ + rest =~= "cat"@ + seq![':'] + rest);
    assert("pg:"@ + rest =~= seq!['p', 'g'] + seq![':'] + rest);
    assert("pref:"@ + rest =~= seq!['p', 'r', 'e', 'f'] + seq![':'] + rest);
    texts::law_cut_first("file"@, ':', rest);
    texts::law_cut_first("cat"@, ':', rest);
    texts::law_cut_first(seq!['p', 'g'], ':', rest);
    texts::law_cut_first(seq!['p', 'r', 'e', 'f'], ':', rest);
    assert("file"@[0] == 'f' && "cat"@[0] == 'c');
    assert(seq!['p', 'g'][0] == 'p');
    assert(seq!['p', 'r', 'e', 'f'][0] == 'p');
}

// How many results are shown.

/// Sixty results are looked up where they can be paged through, and one page of twenty where not.
pub proof fn law_result_limits(q: models::QueryView, p: models::PreferencesModel)
    ensures
        p.pagination_enabled && p.delivery_mode == DeliveryMode::Buttons && !q.links_flag
            && !q.image_previews_flag ==> bot::file_limit(q, p) == 60,
        !p.pagination_enabled || p.delivery_mode != DeliveryMode::Buttons || q.links_flag
            || q.image_previews_flag ==> bot::file_limit(q, p) == 20,
        p.pagination_enabled ==> bot::category_limit(p) == 60,
        !p.pagination_enabled ==> bot::category_limit(p) == 20,
        p.pagination_enabled && p.category_file_buttons ==> bot::category_file_limit(p) == 60,
        !p.pagination_enabled || !p.category_file_buttons ==> bot::category_file_limit(p) == 20,
{
}

/// The place of a user counts only where nothing but words, or the family of pictures, is asked
/// for.
pub proof fn law_place_counts(q: models::QueryView)
    ensures
        q.user is Some || q.category is Some || q.date is Some || q.extension is Some
            || q.size_filters.len() > 0 ==> !bot::place_applies(q),
        q.file_type == Some(FileType::Audio) || q.file_type == Some(FileType::Video) || q.file_type
            == Some(FileType::All) ==> !bot::place_applies(q),
        q.user is None && q.category is None && q.date is None && q.extension is None
            && q.size_filters.len() == 0 && q.file_type is None ==> bot::place_applies(q),
        q.user is None && q.category is None && q.date is None && q.extension is None
            && q.size_filters.len() == 0 && q.file_type == Some(FileType::Images)
            ==> bot::place_applies(q),
{
}

/// The refusals of late answers are told by what they say, wherever it stands; a message of one
/// word is none.
pub proof fn law_late_answers(a: Seq<char>, b: Seq<char>, word: Seq<char>)
    requires
        !word.contains(' '),
    ensures
        bot::says_expired(a + "query is too old"@ + b),
        bot::says_expired(a + "response timeout expired"@ + b),
        bot::says_expired(a + "query ID is invalid"@ + b),
        !bot::says_expired(word),
{
    texts::law_holds(a, "query is too old"@, b, a);
    texts::law_holds(a, "response timeout expired"@, b, a);
    texts::law_holds(a, "query ID is invalid"@, b, a);
    reveal_strlit("query is too old");
    reveal_strlit("response timeout expired");
    reveal_strlit("query ID is invalid");
    lemma_not_held(word, "query is too old"@, 5);
    lemma_not_held(word, "response timeout expired"@, 8);
    lemma_not_held(word, "query ID is invalid"@, 5);
}

proof fn lemma_not_held(s: Seq<char>, p: Seq<char>, k: int)
    requires
        0 <= k < p.len(),
        !s.contains(p[k]),
    ensures
        !text::holds(s, p),
{
    if text::holds(s, p) {
        let i = choose|i: int| text::occurs_at(s, p, i);
        assert(s.subrange(i, i + p.len())[k] == s[i + k]);
        assert(s[i + k] == p[k]);
    }
}

/// A page of inline results holds the files from its offset on, in order, and no more than the
/// user wants.
pub proof fn law_inline_page(files: Seq<FileHit>, offset: nat, count: usize, i: int)
    ensures
        ({
            let page = bot::inline_page(files, offset, count);
            let want = models::inline_count(count);
            &&& page.len() <= want
            &&& offset + want <= files.len() ==> page.len() == want
            &&& offset <= files.len() < offset + want ==> page.len() == files.len() - offset
            &&& offset > files.len() ==> page.len() == 0
            &&& 0 <= i < page.len() ==> page[i] == files[offset + i]
        }),
{
    bot::lemma_inline_count(count);
}

/// An offset is read as the number it is where fewer than all that is looked up lie before it, and
/// starts at the front otherwise; the next one is offered just where files are left.
pub proof fn law_inline_offsets(n: nat, s: Seq<char>, total: nat, count: usize)
    ensures
        n < 151 ==> bot::inline_offset(numbers::numeral(n)) == n,
        n >= 151 ==> bot::inline_offset(numbers::numeral(n)) == 0,
        s.len() == 0 ==> bot::inline_offset(s) == 0,
        bot::next_inline_offset(total, n, count) is Some <==> total > n + models::inline_count(
            count,
        ),
        bot::next_inline_offset(total, n, count) is Some ==> bot::next_inline_offset(
            total,
            n,
            count,
        ) == Some(numbers::numeral((n + models::inline_count(count)) as nat)),
        n + models::inline_count(count) < 151 ==> bot::inline_limit(n, count) == n
            + models::inline_count(count) + 1,
        n + models::inline_count(count) >= 151 ==> bot::inline_limit(n, count) == 151,
{
    numbers::law_numeral_round_trip(n);
    assert(text::is_digit(numbers::numeral(n)[0]));
}

/// Twenty results make a page; there are as many pages as the list needs, and at least one. A page
/// that does not exist is the last one.
pub proof fn law_pages(total: nat, page: nat)
    ensures
        pagination::pages(total) >= 1,
        20 * pagination::pages(total) >= total,
        total > 0 ==> 20 * (pagination::pages(total) - 1) < total,
        total == 0 ==> pagination::pages(total) == 1,
        page < pagination::pages(total) ==> pagination::shown_page(page, total) == page,
        page >= pagination::pages(total) ==> pagination::shown_page(page, total)
            == pagination::pages(total) - 1,
        pagination::page_start(page) == 20 * page,
        20 * page + 20 <= total ==> pagination::page_end(page, total) == 20 * page + 20,
        20 * page + 20 > total ==> pagination::page_end(page, total) == total,
{
    assert((page + 1) * 20 == 20 * page + 20) by (nonlinear_arith);
    assert(page * 20 == 20 * page) by (nonlinear_arith);
}

/// The digest of a list of files is that of its name and then of each file in turn, by its id and
/// its title; a list of categories is told from it by its name.
pub proof fn law_list_digests(files: Seq<FileHit>, f: FileHit)
    ensures
        pagination::files_bytes(files.push(f)) == pagination::files_bytes(files)
            + pagination::number_bytes(f.page_id as nat, 8) + vstd::utf8::encode_utf8(f.title@)
            + seq![0u8],
        pagination::files_bytes(seq![]) == vstd::utf8::encode_utf8("files"@),
        pagination::categories_bytes(seq![]) == vstd::utf8::encode_utf8("categories"@),
{
    assert(files.push(f).drop_last() =~= files);
    assert(pagination::files_bytes(files.push(f)) =~= pagination::files_bytes(files)
        + pagination::number_bytes(f.page_id as nat, 8) + vstd::utf8::encode_utf8(f.title@)
        + seq![0u8]);
}

/// The bytes of a number are those of base 256, the least first: different numbers have different
/// bytes.
pub proof fn law_number_bytes(a: u64, b: u64)
    ensures
        pagination::number_bytes(a as nat, 8).len() == 8,
        pagination::number_bytes(a as nat, 8)[0] == a % 256,
        pagination::number_bytes(a as nat, 8)[1] == (a / 256) % 256,
        pagination::number_bytes(a as nat, 8) == pagination::number_bytes(b as nat, 8) ==> a == b,
{
    reveal_with_fuel(pagination::number_bytes, 3);
    assert(pagination::number_bytes(a as nat, 8).len() == 8) by {
        lemma_bytes_length(a as nat, 8);
    }
    if pagination::number_bytes(a as nat, 8) == pagination::number_bytes(b as nat, 8) {
        lemma_bytes_differ(a as nat, b as nat, 8);
        lemma_eight_bytes();
    }
}

spec fn power(k: nat) -> nat
    decreases k,
{
    if k == 0 {
        1
    } else {
        256 * power((k - 1) as nat)
    }
}

proof fn lemma_eight_bytes()
    ensures
        power(8) == u64::MAX + 1,
{
    reveal_with_fuel(power, 9);
}

proof fn lemma_bytes_length(n: nat, k: nat)
    ensures
        pagination::number_bytes(n, k).len() == k,
    decreases k,
{
    if k > 0 {
        lemma_bytes_length(n / 256, (k - 1) as nat);
    }
}

proof fn lemma_bytes_differ(a: nat, b: nat, k: nat)
    requires
        pagination::number_bytes(a, k) == pagination::number_bytes(b, k),
    ensures
        a < power(k) && b < power(k) ==> a == b,
    decreases k,
{
    if k > 0 {
        let x = pagination::number_bytes(a, k);
        let y = pagination::number_bytes(b, k);
        let j = (k - 1) as nat;
        assert(x.skip(1) =~= pagination::number_bytes(a / 256, j));
        assert(y.skip(1) =~= pagination::number_bytes(b / 256, j));
        assert(x[0] == (a % 256) as u8 && y[0] == (b % 256) as u8);
        lemma_bytes_differ(a / 256, b / 256, j);
        if a < power(k) && b < power(k) {
            assert(a / 256 < power(j) && b / 256 < power(j));
        }
    }
}

} // verus!
