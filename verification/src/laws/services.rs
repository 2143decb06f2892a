//! Laws on the services around the bot: what is asked of them, and what their answers mean.

use vstd::prelude::*;
use crate::commons;
use crate::commons_cache::CommonsCacheStats;
use crate::config;
use crate::config::Config;
use crate::cookies;
use crate::escaping;
use crate::idempotency;
use crate::laws::formats;
use crate::laws::texts;
use crate::laws::updates;
use crate::models;
use crate::models::FileType;
use crate::parser;
use crate::settings;
use crate::settings::ExtensionGroup;
use crate::stats;
use crate::stats::{FreeTierUse, StatsSnapshot};
use crate::text;

verus! {

// Commons.

/// Every question to Commons asks for JSON in its second form; one for files asks for twenty
/// versions at most and for thumbnails as wide as previews.
pub proof fn law_questions_to_commons()
    ensures
        commons::query_pairs().len() == 3,
        commons::query_pairs()[0] == ("action"@, "query"@),
        commons::query_pairs()[1] == ("format"@, "json"@),
        commons::query_pairs()[2] == ("formatversion"@, "2"@),
        commons::imageinfo_pairs().len() == 4,
        commons::imageinfo_pairs()[0] == ("prop"@, "imageinfo"@),
        commons::imageinfo_pairs()[1] == ("iilimit"@, "20"@),
        commons::imageinfo_pairs()[2] == ("iiurlwidth"@, "1280"@),
        commons::imageinfo_pairs()[3] == (
            "iiprop"@,
            "timestamp|user|url|size|sha1|mime|mediatype|metadata|commonmetadata|extmetadata"@,
        ),
{
}

/// The title of a category is its name behind the namespace, once.
pub proof fn law_category_titles(name: Seq<char>)
    ensures
        commons::category_title(name) == "Category:"@ + parser::category_name(name),
        name.len() > 0 && !text::is_white(name[0]) && !text::is_white(name.last())
            ==> commons::category_title("Category:"@ + name) == commons::category_title(name),
{
    if name.len() > 0 && !text::is_white(name[0]) && !text::is_white(name.last()) {
        let e = Seq::<char>::empty();
        reveal_strlit("Category:");
        texts::law_space('C');
        let s = "Category:"@ + name;
        assert("Category:"@[0] == 'C');
        assert(s.last() == name.last());
        texts::law_trimmed(e, s, e);
        texts::law_trimmed(e, name, e);
        assert(e + s + e =~= s);
        assert(e + name + e =~= name);
        texts::law_prefix_dropped("Category:"@, name);
    }
}

/// A date that goes back from now can be tested where it does not go back behind the earliest
/// moment there is; other dates always can.
pub proof fn law_dates_that_can_be_tested(n: u32, y: i32, d: Seq<char>, now: i128)
    ensures
        commons::reachable(None, now),
        commons::reachable(Some(models::DateView::Year(y)), now),
        commons::reachable(Some(models::DateView::Day(d)), now),
        commons::reachable(Some(models::DateView::RelativeDays(n)), now) <==> now - n
            * 86_400_000_000_000 >= -377_705_116_800_000_000_000,
        commons::reachable(Some(models::DateView::PreviousMonth), now) <==> now - 31
            * 86_400_000_000_000 >= -377_705_116_800_000_000_000,
        commons::reachable(Some(models::DateView::PreviousYear), now) <==> now - 366
            * 86_400_000_000_000 >= -377_705_116_800_000_000_000,
{
}

/// The words that Commons has for the families.
pub proof fn law_family_words()
    ensures
        FileType::All.predicate() is None,
        FileType::Images.predicate() == Some("bitmap"@),
        FileType::Audio.predicate() == Some("audio"@),
        FileType::Video.predicate() == Some("video"@),
{
}

/// The words of a search are its terms with a blank between neighbours.
pub proof fn law_term_text(q: models::QueryView, a: Seq<char>, b: Seq<char>)
    requires
        formats::plain(a) && formats::plain(b),
    ensures
        q.terms == seq![a] ==> q.term_text() == a,
        q.terms == seq![a, b] ==> q.term_text() == a + seq![' '] + b,
        q.terms.len() == 0 ==> q.term_text() == Seq::<char>::empty(),
{
    reveal_strlit(" ");
    assert(" "@ =~= seq![' ']);
    let e = Seq::<char>::empty();
    texts::law_space(a[0]);
    texts::law_space(a.last());
    texts::law_space(b.last());
    texts::law_joined_few(a, " "@);
    texts::law_joined_few(b, " "@);
    texts::law_joined_in_order(seq![a], seq![b], " "@);
    assert(seq![a] + seq![b] =~= seq![a, b]);
    texts::law_trimmed(e, a, e);
    assert(e + a + e =~= a);
    let s = a + seq![' '] + b;
    assert(s[0] == a[0] && s.last() == b.last());
    texts::law_trimmed(e, s, e);
    assert(e + s + e =~= s);
    texts::law_trimmed(e, e, e);
    assert(e + e + e =~= e);
    if q.terms.len() == 0 {
        assert(q.terms =~= Seq::<Seq<char>>::empty());
    }
}

/// The group of an extension is the one that holds it.
pub proof fn law_extension_groups(g: ExtensionGroup, n: int)
    requires
        0 <= n < g.members().len(),
    ensures
        settings::group_of(g.members()[n]@) is Some,
        text::among(
            (settings::group_of(g.members()[n]@)->0).members(),
            g.members()[n]@,
        ),
{
    let e = g.members()[n]@;
    assert(text::among(g.members(), e));
}

// The database.

/// A write that was refused since the reservation is there says so in its message.
pub proof fn law_refused_writes(a: Seq<char>, b: Seq<char>, short: Seq<char>)
    requires
        short.len() < 31,
    ensures
        idempotency::says_condition_failed(a + "ConditionalCheckFailedException"@ + b),
        !idempotency::says_condition_failed(short),
{
    reveal_strlit("ConditionalCheckFailedException");
    texts::law_holds(a, "ConditionalCheckFailedException"@, b, short);
}

// Settings and cookies.

/// The administrators are the numbers between the commas; a single number is one administrator.
pub proof fn law_administrator_list(v: Seq<char>)
    ensures
        config::admin_ids(v) == config::ids_in(text::parts(v, ',')),
        !v.contains(',') ==> config::admin_ids(v) == config::ids_in(seq![v]),
{
    if !v.contains(',') {
        updates::lemma_one_part(v, ',');
    }
}

/// The value of a cookie is what stands between its quotes, where nothing is escaped in it.
pub proof fn law_cookie_value(s: Seq<char>)
    requires
        !s.contains('\\'),
        s.len() == 0 || s[0] != '"',
    ensures
        cookies::cookie_value(seq!['"'] + s + seq!['"']) == s,
        cookies::cookie_value(s) == s,
{
    formats::law_cookie_values(s, 'a', 0);
    if s.len() == 0 {
        assert(s =~= Seq::<char>::empty());
    }
}

// Statistics.

/// A reading goes back as many days as it says.
pub proof fn law_readings(metric: Seq<char>, days: nat, period: u64, statistic: Seq<char>)
    requires
        days <= 31,
    ensures
        stats::sum_of(metric, days, period).metric == metric,
        stats::sum_of(metric, days, period).statistic == "Sum"@,
        stats::sum_of(metric, days, period).seconds_back == days * 86_400,
        stats::sum_of(metric, days, period).period == period,
        stats::week_duration(statistic).metric == "Duration"@,
        stats::week_duration(statistic).statistic == statistic,
        stats::week_duration(statistic).seconds_back == 7 * 86_400,
        stats::week_duration(statistic).period == 86_400,
{
    assert(days * 86_400 <= 31 * 86_400) by (nonlinear_arith)
        requires
            days <= 31,
    ;
}

/// The message on the statistics: the summary, the chart, the shares, and where to look.
pub proof fn law_dashboard(s: StatsSnapshot, shares: FreeTierUse, config: Config)
    ensures
        ({
            let front = "Stats\n\n<pre>"@ + escaping::html_text(stats::summary(s)) + "</pre>\n"@
                + stats::daily_chart(s);
            let requests =
                "\nFree tier use estimate, based on last 7 days as a rough monthly signal:\nLambda requests: "@
                + shares.request_percent@ + "%"@;
            let duration = "\nLambda duration: "@ + shares.duration_percent@ + "% ("@
                + shares.gb_seconds@ + " GB-s)"@;
            let storage = "\nDynamoDB storage: "@ + shares.storage_percent@ + "% ("@
                + shares.storage_gb@ + " GB)"@;
            let places =
                "\n\nAWS Lambda free tier: https://aws.amazon.com/lambda/pricing/\nDynamoDB free tier: https://aws.amazon.com/dynamodb/pricing/\nCloudWatch: "@
                + stats::log_url(config) + "\nDynamoDB: "@ + stats::table_url(config);
            stats::dashboard(s, shares, config) == front + requests + duration + storage + places
        }),
{
    reveal_strlit("%\nLambda duration: ");
    reveal_strlit("%");
    reveal_strlit("\nLambda duration: ");
    reveal_strlit(" GB-s)\nDynamoDB storage: ");
    reveal_strlit(" GB-s)");
    reveal_strlit("\nDynamoDB storage: ");
    reveal_strlit(
        " GB)\n\nAWS Lambda free tier: https://aws.amazon.com/lambda/pricing/\nDynamoDB free tier: https://aws.amazon.com/dynamodb/pricing/\nCloudWatch: ",
    );
    reveal_strlit(" GB)");
    reveal_strlit(
        "\n\nAWS Lambda free tier: https://aws.amazon.com/lambda/pricing/\nDynamoDB free tier: https://aws.amazon.com/dynamodb/pricing/\nCloudWatch: ",
    );
    let a = "%\nLambda duration: "@;
    let b = " GB-s)\nDynamoDB storage: "@;
    let c =
        " GB)\n\nAWS Lambda free tier: https://aws.amazon.com/lambda/pricing/\nDynamoDB free tier: https://aws.amazon.com/dynamodb/pricing/\nCloudWatch: "@;
    let c2 =
        "\n\nAWS Lambda free tier: https://aws.amazon.com/lambda/pricing/\nDynamoDB free tier: https://aws.amazon.com/dynamodb/pricing/\nCloudWatch: "@;
    assert(a =~= "%"@ + "\nLambda duration: "@);
    assert(b =~= " GB-s)"@ + "\nDynamoDB storage: "@);
    assert(c =~= " GB)"@ + c2);
    let front = "Stats\n\n<pre>"@ + escaping::html_text(stats::summary(s)) + "</pre>\n"@
        + stats::daily_chart(s);
    let r0 =
        "\nFree tier use estimate, based on last 7 days as a rough monthly signal:\nLambda requests: "@;
    lemma_regrouped(
        front,
        r0,
        shares.request_percent@,
        "%"@,
        "\nLambda duration: "@,
        shares.duration_percent@,
        "% ("@,
        shares.gb_seconds@,
    );
    let p1 = front + r0 + shares.request_percent@ + a + shares.duration_percent@ + "% ("@
        + shares.gb_seconds@;
    let q1 = front + (r0 + shares.request_percent@ + "%"@) + ("\nLambda duration: "@
        + shares.duration_percent@ + "% ("@ + shares.gb_seconds@);
    assert(p1 == q1);
    let duration = "\nLambda duration: "@ + shares.duration_percent@ + "% ("@ + shares.gb_seconds@
        + " GB-s)"@;
    let q2 = front + (r0 + shares.request_percent@ + "%"@) + duration;
    assert(q1 + " GB-s)"@ =~= q2);
    assert(p1 + b =~= q2 + "\nDynamoDB storage: "@);
    let storage = "\nDynamoDB storage: "@ + shares.storage_percent@ + "% ("@ + shares.storage_gb@
        + " GB)"@;
    assert(q2 + "\nDynamoDB storage: "@ + shares.storage_percent@ + "% ("@ + shares.storage_gb@ + c
        =~= q2 + storage + c2);
    let places = c2 + stats::log_url(config) + "\nDynamoDB: "@ + stats::table_url(config);
    assert(q2 + storage + c2 + stats::log_url(config) + "\nDynamoDB: "@ + stats::table_url(config)
        =~= q2 + storage + places);
}

proof fn lemma_regrouped(
    front: Seq<char>,
    r0: Seq<char>,
    r1: Seq<char>,
    x: Seq<char>,
    y: Seq<char>,
    d1: Seq<char>,
    d2: Seq<char>,
    d3: Seq<char>,
)
    ensures
        front + r0 + r1 + (x + y) + d1 + d2 + d3 == front + (r0 + r1 + x) + (y + d1 + d2 + d3),
{
    assert(front + r0 + r1 + (x + y) + d1 + d2 + d3 =~= front + (r0 + r1 + x) + (y + d1 + d2
        + d3));
}

/// A chart is shown where any day has a label, a line for each day.
pub proof fn law_daily_chart(s: StatsSnapshot, i: int)
    requires
        0 <= i < 7,
    ensures
        s.daily_labels@[i]@.len() > 0 ==> stats::daily_chart(s) == "\nCalls per day:\n<pre>"@
            + escaping::html_text(
            text::joined(
                stats::chart_lines(s.daily_invocations@, stats::day_texts(s.daily_labels@)),
                "\n"@,
            ),
        ) + "</pre>\n"@,
        (forall|k: int| 0 <= k < 7 ==> (#[trigger] s.daily_labels@[k])@.len() == 0)
            ==> stats::daily_chart(s) == ""@,
{
}

/// The entries of the metadata caches are counted together.
pub proof fn law_metadata_entries(s: CommonsCacheStats)
    ensures
        s.metadata_entries() == s.file_by_page_id_entries + s.file_by_title_entries
            + s.file_search_entries + s.category_search_entries + s.category_info_entries
            + s.category_file_count_entries + s.page_title_entries + s.uploader_name_entries
            + s.auth_cookie_entries,
{
}

} // verus!
