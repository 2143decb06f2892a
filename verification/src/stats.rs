//! Operational statistics.

use vstd::prelude::*;
use vstd::string::*;
use vstd::utf8::*;
use crate::commons::push_pair;
use crate::commons;
use crate::config::Config;
use crate::escaping;
use crate::numbers;
use crate::rounding;
use crate::text;

verus! {

/// A compact operational stats snapshot. Durations are written in whole milliseconds.
#[derive(Debug)]
pub struct StatsSnapshot {
    /// Lambda invocations in the last 24 hours.
    pub invocations_24h: u64,
    /// Lambda invocations in the last 7 days.
    pub invocations_7d: u64,
    /// Lambda errors in the last 24 hours.
    pub errors_24h: u64,
    /// Lambda errors in the last 7 days.
    pub errors_7d: u64,
    /// Lambda errors in the last month.
    pub errors_month: u64,
    /// Minimum Lambda duration in ms.
    pub min_duration_ms: String,
    /// Average Lambda duration in ms.
    pub avg_duration_ms: String,
    /// Maximum Lambda duration in ms.
    pub max_duration_ms: String,
    /// DynamoDB table size in bytes.
    pub dynamodb_size_bytes: u64,
    /// Lambda invocations for each of the previous seven UTC days.
    pub daily_invocations: [u64; 7],
    /// Labels for the daily invocation chart.
    pub daily_labels: [String; 7],
}

/// Shares of the free tier, written as decimal numbers.
#[derive(Debug)]
pub struct FreeTierUse {
    /// Percent of the free Lambda requests, with one decimal.
    pub request_percent: String,
    /// Percent of the free Lambda duration, with one decimal.
    pub duration_percent: String,
    /// Lambda duration in GB-seconds, without decimals.
    pub gb_seconds: String,
    /// Percent of the free DynamoDB storage, with three decimals.
    pub storage_percent: String,
    /// DynamoDB storage in GB, with four decimals.
    pub storage_gb: String,
}

/// A text as often as a number says.
pub open spec fn repeated(c: char, n: nat) -> Seq<char> {
    Seq::new(n, |i: int| c)
}

/// Writes a character as often as a number says.
fn repeat_char(c: char, n: usize) -> (r: String)
    ensures
        r@ == repeated(c, n as nat),
{
    let mut s = String::new();
    let mut i: usize = 0;
    assert(s@ =~= repeated(c, 0));
    while i < n
        invariant
            i <= n,
            s@ == repeated(c, i as nat),
        decreases n - i,
    {
        s.push(c);
        assert(s@ =~= repeated(c, (i + 1) as nat));
        i += 1;
    }
    s
}

/// A text with spaces before it, at least so many characters wide.
pub open spec fn right_aligned(s: Seq<char>, width: nat) -> Seq<char> {
    if s.len() < width {
        repeated(' ', (width - s.len()) as nat) + s
    } else {
        s
    }
}

/// Puts spaces before a text.
fn align_right(s: &str, width: usize) -> (r: String)
    ensures
        r@ == right_aligned(s@, width as nat),
{
    let n: usize = s.unicode_len();
    if n < width {
        repeat_char(' ', width - n).concat(s)
    } else {
        s.to_owned()
    }
}

/// The number that is greatest of the first `n`, and at least one.
pub open spec fn greatest(values: Seq<u64>, n: nat) -> u64
    decreases n,
{
    if n == 0 {
        1
    } else {
        let before = greatest(values, (n - 1) as nat);
        if values[n - 1] > before {
            values[n - 1]
        } else {
            before
        }
    }
}

/// The line of a day: its label, its number, and a bar of up to twenty signs.
pub open spec fn chart_line(label: Seq<char>, value: u64, max: u64) -> Seq<char> {
    let width = rounding::twentieths(value as nat, max as nat);
    label + " "@ + right_aligned(numbers::numeral(value as nat), 6) + " "@ + repeated(
        '#',
        if width < 1 {
            1
        } else {
            width
        },
    )
}

/// The lines of the days.
pub open spec fn chart_lines(values: Seq<u64>, labels: Seq<Seq<char>>) -> Seq<Seq<char>> {
    Seq::new(
        values.len(),
        |i: int| chart_line(labels[i], values[i], greatest(values, values.len())),
    )
}

/// The characters of labels.
pub open spec fn label_texts(labels: Seq<&str>) -> Seq<Seq<char>> {
    Seq::new(labels.len(), |i: int| labels[i]@)
}

/// The greatest number is at least one, and none is greater.
proof fn lemma_greatest(values: Seq<u64>, n: nat)
    requires
        n <= values.len(),
    ensures
        greatest(values, n) >= 1,
        forall|i: int| 0 <= i < n ==> values[i] <= greatest(values, n),
    decreases n,
{
    if n > 0 {
        lemma_greatest(values, (n - 1) as nat);
    }
}

/// Renders a 7-column ASCII chart.
pub fn render_week_chart(values: &[u64; 7], labels: &[&str; 7]) -> (r: String)
    ensures
        r@ == text::joined(chart_lines(values@, label_texts(labels@)), "\n"@),
{
    let ghost all = chart_lines(values@, label_texts(labels@));
    let mut max: u64 = 1;
    let mut i: usize = 0;
    while i < 7
        invariant
            i <= 7,
            max == greatest(values@, i as nat),
        decreases 7 - i,
    {
        if values[i] > max {
            max = values[i];
        }
        i += 1;
    }
    proof {
        lemma_greatest(values@, 7);
    }
    let mut lines: Vec<String> = Vec::new();
    assert(text::texts(lines@) =~= all.take(0));
    i = 0;
    while i < 7
        invariant
            i <= 7,
            max == greatest(values@, 7),
            max >= 1,
            forall|k: int| 0 <= k < 7 ==> values@[k] <= max,
            all == chart_lines(values@, label_texts(labels@)),
            text::texts(lines@) == all.take(i as int),
        decreases 7 - i,
    {
        assert(values@[i as int] <= max);
        let width: usize = rounding::bar_length(values[i], max);
        let line = labels[i].to_owned().concat(" ").concat(
            align_right(numbers::decimal(values[i]).as_str(), 6).as_str(),
        ).concat(" ").concat(repeat_char('#', width).as_str());
        proof {
            assert(all[i as int] == line@);
            text::lemma_texts_push(lines@, line);
            assert(all.take(i + 1) =~= all.take(i as int).push(all[i as int]));
        }
        lines.push(line);
        i += 1;
    }
    assert(all.take(7) =~= all);
    text::join(&lines, "\n")
}

/// A number, eight characters wide.
pub open spec fn wide(n: u64) -> Seq<char> {
    right_aligned(numbers::numeral(n as nat), 8)
}

/// Writes a number, eight characters wide.
fn write_wide(n: u64) -> (r: String)
    ensures
        r@ == wide(n),
{
    align_right(numbers::decimal(n).as_str(), 8)
}

/// The rows of the summary.
pub open spec fn summary(s: StatsSnapshot) -> Seq<char> {
    "Calls    24h "@ + wide(s.invocations_24h) + "  7d "@ + wide(s.invocations_7d)
        + "\nErrors   24h "@ + wide(s.errors_24h) + "  7d "@ + wide(s.errors_7d) + "  month "@
        + wide(s.errors_month) + "\nDuration min "@ + right_aligned(s.min_duration_ms@, 6)
        + " ms avg "@ + right_aligned(s.avg_duration_ms@, 6) + " ms max "@ + right_aligned(
        s.max_duration_ms@,
        6,
    ) + " ms"@
}

/// Renders fixed-width summary rows for Telegram monospace display.
pub fn render_summary_block(stats: &StatsSnapshot) -> (r: String)
    ensures
        r@ == summary(*stats),
{
    "Calls    24h ".to_owned().concat(write_wide(stats.invocations_24h).as_str()).concat(
        "  7d ",
    ).concat(write_wide(stats.invocations_7d).as_str()).concat("\nErrors   24h ").concat(
        write_wide(stats.errors_24h).as_str(),
    ).concat("  7d ").concat(write_wide(stats.errors_7d).as_str()).concat("  month ").concat(
        write_wide(stats.errors_month).as_str(),
    ).concat("\nDuration min ").concat(
        align_right(stats.min_duration_ms.as_str(), 6).as_str(),
    ).concat(" ms avg ").concat(align_right(stats.avg_duration_ms.as_str(), 6).as_str()).concat(
        " ms max ",
    ).concat(align_right(stats.max_duration_ms.as_str(), 6).as_str()).concat(" ms")
}

/// The address of the function's log.
pub open spec fn log_url(config: Config) -> Seq<char> {
    "https://"@ + config.aws_region@ + ".console.aws.amazon.com/cloudwatch/home?region="@
        + config.aws_region@ + "#logsV2:log-groups/log-group/$252Faws$252Flambda$252F"@
        + config.lambda_function_name@
}

/// Builds the address of the function's log.
fn format_log_url(config: &Config) -> (r: String)
    ensures
        r@ == log_url(*config),
{
    "https://".to_owned().concat(config.aws_region.as_str()).concat(
        ".console.aws.amazon.com/cloudwatch/home?region=",
    ).concat(config.aws_region.as_str()).concat(
        "#logsV2:log-groups/log-group/$252Faws$252Flambda$252F",
    ).concat(config.lambda_function_name.as_str())
}

/// The address of the table, or that there is none.
pub open spec fn table_url(config: Config) -> Seq<char> {
    match config.dynamodb_table {
        Some(table) => "https://"@ + config.aws_region@
            + ".console.aws.amazon.com/dynamodbv2/home?region="@ + config.aws_region@
            + "#table?name="@ + table@,
        None => "DynamoDB is disabled in stateless mode"@,
    }
}

/// Builds the address of the table.
fn format_table_url(config: &Config) -> (r: String)
    ensures
        r@ == table_url(*config),
{
    match &config.dynamodb_table {
        Some(table) => "https://".to_owned().concat(config.aws_region.as_str()).concat(
            ".console.aws.amazon.com/dynamodbv2/home?region=",
        ).concat(config.aws_region.as_str()).concat("#table?name=").concat(table.as_str()),
        None => "DynamoDB is disabled in stateless mode".to_owned(),
    }
}

/// The characters of the labels of days.
pub open spec fn day_texts(labels: Seq<String>) -> Seq<Seq<char>> {
    Seq::new(labels.len(), |i: int| labels[i]@)
}

/// True where a day has a label.
pub open spec fn has_labels(s: StatsSnapshot) -> bool {
    exists|i: int| 0 <= i < 7 && (#[trigger] s.daily_labels@[i])@.len() > 0
}

/// The chart of the days, where they have labels.
pub open spec fn daily_chart(s: StatsSnapshot) -> Seq<char> {
    if has_labels(s) {
        "\nCalls per day:\n<pre>"@ + escaping::html_text(
            text::joined(chart_lines(s.daily_invocations@, day_texts(s.daily_labels@)), "\n"@),
        ) + "</pre>\n"@
    } else {
        ""@
    }
}

/// Renders the chart of the days.
fn render_daily_chart(stats: &StatsSnapshot) -> (r: String)
    ensures
        r@ == daily_chart(*stats),
{
    let mut any: bool = false;
    let mut i: usize = 0;
    while i < 7
        invariant
            i <= 7,
            any == (exists|k: int| 0 <= k < i && (#[trigger] stats.daily_labels@[k])@.len() > 0),
        decreases 7 - i,
    {
        if stats.daily_labels[i].as_str().unicode_len() > 0 {
            assert(stats.daily_labels@[i as int]@.len() > 0);
            any = true;
        }
        i += 1;
    }
    if !any {
        return "".to_owned();
    }
    let labels: [&str; 7] = [
        stats.daily_labels[0].as_str(),
        stats.daily_labels[1].as_str(),
        stats.daily_labels[2].as_str(),
        stats.daily_labels[3].as_str(),
        stats.daily_labels[4].as_str(),
        stats.daily_labels[5].as_str(),
        stats.daily_labels[6].as_str(),
    ];
    assert(label_texts(labels@) =~= day_texts(stats.daily_labels@));
    let chart = render_week_chart(&stats.daily_invocations, &labels);
    "\nCalls per day:\n<pre>".to_owned().concat(
        escaping::encode_text(chart.as_str()).as_str(),
    ).concat("</pre>\n")
}

/// The dashboard.
pub open spec fn dashboard(s: StatsSnapshot, shares: FreeTierUse, config: Config) -> Seq<char> {
    "Stats\n\n<pre>"@ + escaping::html_text(summary(s)) + "</pre>\n"@ + daily_chart(s)
        + "\nFree tier use estimate, based on last 7 days as a rough monthly signal:\nLambda requests: "@
        + shares.request_percent@ + "%\nLambda duration: "@ + shares.duration_percent@ + "% ("@
        + shares.gb_seconds@ + " GB-s)\nDynamoDB storage: "@ + shares.storage_percent@ + "% ("@
        + shares.storage_gb@
        + " GB)\n\nAWS Lambda free tier: https://aws.amazon.com/lambda/pricing/\nDynamoDB free tier: https://aws.amazon.com/dynamodb/pricing/\nCloudWatch: "@
        + log_url(config) + "\nDynamoDB: "@ + table_url(config)
}

impl StatsSnapshot {
    /// Renders a Telegram-safe text dashboard with AWS documentation links.
    pub fn render_text(&self, shares: &FreeTierUse, config: &Config) -> (r: String)
        ensures
            r@ == dashboard(*self, *shares, *config),
    {
        "Stats\n\n<pre>".to_owned().concat(
            escaping::encode_text(render_summary_block(self).as_str()).as_str(),
        ).concat("</pre>\n").concat(render_daily_chart(self).as_str()).concat(
            "\nFree tier use estimate, based on last 7 days as a rough monthly signal:\nLambda requests: ",
        ).concat(shares.request_percent.as_str()).concat("%\nLambda duration: ").concat(
            shares.duration_percent.as_str(),
        ).concat("% (").concat(shares.gb_seconds.as_str()).concat(
            " GB-s)\nDynamoDB storage: ",
        ).concat(shares.storage_percent.as_str()).concat("% (").concat(
            shares.storage_gb.as_str(),
        ).concat(
            " GB)\n\nAWS Lambda free tier: https://aws.amazon.com/lambda/pricing/\nDynamoDB free tier: https://aws.amazon.com/dynamodb/pricing/\nCloudWatch: ",
        ).concat(format_log_url(config).as_str()).concat("\nDynamoDB: ").concat(
            format_table_url(config).as_str(),
        )
    }
}

/// The label of a day of the week, counted from Monday.
pub open spec fn day_label(days_from_monday: u8) -> Seq<char> {
    if days_from_monday == 0 {
        "Mon"@
    } else if days_from_monday == 1 {
        "Tue"@
    } else if days_from_monday == 2 {
        "Wed"@
    } else if days_from_monday == 3 {
        "Thu"@
    } else if days_from_monday == 4 {
        "Fri"@
    } else if days_from_monday == 5 {
        "Sat"@
    } else {
        "Sun"@
    }
}

/// Returns a short English weekday label for compact charts, with the days counted from Monday.
pub fn weekday_label(days_from_monday: u8) -> (r: &'static str)
    requires
        days_from_monday < 7,
    ensures
        r@ == day_label(days_from_monday),
{
    if days_from_monday == 0 {
        "Mon"
    } else if days_from_monday == 1 {
        "Tue"
    } else if days_from_monday == 2 {
        "Wed"
    } else if days_from_monday == 3 {
        "Thu"
    } else if days_from_monday == 4 {
        "Fri"
    } else if days_from_monday == 5 {
        "Sat"
    } else {
        "Sun"
    }
}

/// Seconds of an hour.
pub const HOUR_SECONDS: u64 = 3_600;

/// Seconds of a day.
pub const DAY_SECONDS: u64 = 86_400;

/// One reading of a metric of the function.
#[derive(Debug)]
pub struct MetricReading {
    /// Name of the metric.
    pub metric: &'static str,
    /// Statistic of the metric.
    pub statistic: &'static str,
    /// Length of the time that is read, in seconds.
    pub seconds_back: u64,
    /// Length of the time that each value stands for, in seconds.
    pub period: u64,
}

/// The value of `MetricReading`.
pub struct MetricReadingView {
    pub metric: Seq<char>,
    pub statistic: Seq<char>,
    pub seconds_back: u64,
    pub period: u64,
}

impl View for MetricReading {
    type V = MetricReadingView;

    open spec fn view(&self) -> MetricReadingView {
        MetricReadingView {
            metric: self.metric@,
            statistic: self.statistic@,
            seconds_back: self.seconds_back,
            period: self.period,
        }
    }
}

/// A reading whose values are added up.
pub open spec fn sum_of(metric: Seq<char>, days: nat, period: u64) -> MetricReadingView {
    MetricReadingView {
        metric,
        statistic: "Sum"@,
        seconds_back: (days * DAY_SECONDS) as u64,
        period,
    }
}

/// A reading of the duration in the last seven days.
pub open spec fn week_duration(statistic: Seq<char>) -> MetricReadingView {
    MetricReadingView {
        metric: "Duration"@,
        statistic,
        seconds_back: (7 * DAY_SECONDS) as u64,
        period: DAY_SECONDS,
    }
}

/// The readings that a snapshot is made of, each under the name of what it gives.
#[derive(Debug)]
pub struct StatsPlan {
    /// Lambda invocations in the last 24 hours.
    pub invocations_24h: MetricReading,
    /// Lambda invocations in the last 7 days.
    pub invocations_7d: MetricReading,
    /// Lambda errors in the last 24 hours.
    pub errors_24h: MetricReading,
    /// Lambda errors in the last 7 days.
    pub errors_7d: MetricReading,
    /// Lambda errors in the last month.
    pub errors_month: MetricReading,
    /// Minimum Lambda duration.
    pub min_duration: MetricReading,
    /// Average Lambda duration.
    pub avg_duration: MetricReading,
    /// Maximum Lambda duration.
    pub max_duration: MetricReading,
    /// Lambda invocations of one day of the chart, back from its end.
    pub daily_invocations: MetricReading,
    /// How many days each column of the chart lies back.
    pub chart_days_ago: [u8; 7],
}

/// Plans the readings for a snapshot.
pub fn stats_plan() -> (r: StatsPlan)
    ensures
        r.invocations_24h@ == sum_of("Invocations"@, 1, HOUR_SECONDS),
        r.invocations_7d@ == sum_of("Invocations"@, 7, DAY_SECONDS),
        r.errors_24h@ == sum_of("Errors"@, 1, HOUR_SECONDS),
        r.errors_7d@ == sum_of("Errors"@, 7, DAY_SECONDS),
        r.errors_month@ == sum_of("Errors"@, 30, DAY_SECONDS),
        r.min_duration@ == week_duration("Minimum"@),
        r.avg_duration@ == week_duration("Average"@),
        r.max_duration@ == week_duration("Maximum"@),
        r.daily_invocations@ == sum_of("Invocations"@, 1, DAY_SECONDS),
        forall|i: int| 0 <= i < 7 ==> #[trigger] r.chart_days_ago@[i] == 6 - i,
{
    StatsPlan {
        invocations_24h: plan_sum("Invocations", 1, HOUR_SECONDS),
        invocations_7d: plan_sum("Invocations", 7, DAY_SECONDS),
        errors_24h: plan_sum("Errors", 1, HOUR_SECONDS),
        errors_7d: plan_sum("Errors", 7, DAY_SECONDS),
        errors_month: plan_sum("Errors", 30, DAY_SECONDS),
        min_duration: plan_duration("Minimum"),
        avg_duration: plan_duration("Average"),
        max_duration: plan_duration("Maximum"),
        daily_invocations: plan_sum("Invocations", 1, DAY_SECONDS),
        chart_days_ago: [6, 5, 4, 3, 2, 1, 0],
    }
}

/// Plans a reading whose values are added up.
fn plan_sum(metric: &'static str, days: u8, period: u64) -> (r: MetricReading)
    ensures
        r@ == sum_of(metric@, days as nat, period),
{
    MetricReading { metric, statistic: "Sum", seconds_back: days as u64 * DAY_SECONDS, period }
}

/// Plans a reading of the duration in the last seven days.
fn plan_duration(statistic: &'static str) -> (r: MetricReading)
    ensures
        r@ == week_duration(statistic@),
{
    MetricReading {
        metric: "Duration",
        statistic,
        seconds_back: 7 * DAY_SECONDS,
        period: DAY_SECONDS,
    }
}

/// Builds the request for a metric of the function between two times.
pub fn metric_request(
    function_name: &str,
    metric: &str,
    statistic: &str,
    start: &str,
    end: &str,
    period: u64,
) -> (r: Vec<(String, String)>)
    ensures
        commons::pairs(r@) == seq![
            ("Action"@, "GetMetricStatistics"@),
            ("Version"@, "2010-08-01"@),
            ("Namespace"@, "AWS/Lambda"@),
            ("MetricName"@, metric@),
            ("Dimensions.member.1.Name"@, "FunctionName"@),
            ("Dimensions.member.1.Value"@, function_name@),
            ("StartTime"@, start@),
            ("EndTime"@, end@),
            ("Period"@, numbers::numeral(period as nat)),
            ("Statistics.member.1"@, statistic@),
        ],
{
    let mut list: Vec<(String, String)> = Vec::new();
    assert(commons::pairs(list@) =~= seq![]);
    push_pair(&mut list, "Action", "GetMetricStatistics");
    push_pair(&mut list, "Version", "2010-08-01");
    push_pair(&mut list, "Namespace", "AWS/Lambda");
    push_pair(&mut list, "MetricName", metric);
    push_pair(&mut list, "Dimensions.member.1.Name", "FunctionName");
    push_pair(&mut list, "Dimensions.member.1.Value", function_name);
    push_pair(&mut list, "StartTime", start);
    push_pair(&mut list, "EndTime", end);
    push_pair(&mut list, "Period", numbers::decimal(period).as_str());
    push_pair(&mut list, "Statistics.member.1", statistic);
    list
}

// Metrics.

/// `quick_xml::Reader`, which reads an XML text event by event.
#[verifier::external_type_specification]
#[verifier::external_body]
#[verifier::reject_recursive_types(R)]
pub struct ExReader<R>(quick_xml::Reader<R>);

/// `quick_xml::Error`, what is wrong with an XML text.
#[verifier::external_type_specification]
#[verifier::external_body]
pub struct ExXmlError(quick_xml::Error);

/// An event of an XML text.
#[derive(Debug)]
pub enum XmlEvent {
    /// The start of an element, with its name.
    Start(Vec<u8>),
    /// Text, where it is in the encoding of the document.
    Text(Option<String>),
    /// The end of an element.
    End,
    /// The end of the text.
    Eof,
    /// Anything else.
    Other,
}

/// The value of `XmlEvent`.
pub enum XmlView {
    Start(Seq<u8>),
    Text(Option<Seq<char>>),
    End,
    Eof,
    Other,
}

impl View for XmlEvent {
    type V = XmlView;

    open spec fn view(&self) -> XmlView {
        match self {
            XmlEvent::Start(name) => XmlView::Start(name@),
            XmlEvent::Text(t) => XmlView::Text(text::opt_text(*t)),
            XmlEvent::End => XmlView::End,
            XmlEvent::Eof => XmlView::Eof,
            XmlEvent::Other => XmlView::Other,
        }
    }
}

/// The values of events.
pub open spec fn event_views(v: Seq<XmlEvent>) -> Seq<XmlView> {
    Seq::new(v.len(), |i: int| v[i]@)
}

/// The events that `quick_xml` reads in a text whose character data is trimmed, up to the end of
/// the text or the first fault.
pub uninterp spec fn xml_events(xml: Seq<char>) -> Seq<Option<XmlView>>;

/// The events that a reader has still to give, up to the end of its text or the first fault, which
/// is nothing.
pub uninterp spec fn unread(reader: quick_xml::Reader<&[u8]>) -> Seq<Option<XmlView>>;

/// `quick_xml::Reader::from_str` with `Config::trim_text` gives a reader of the events of a text.
/// Which they are depends on the text alone, and is not stated.
#[verifier::external_body]
fn open_xml<'a>(xml: &'a str) -> (r: quick_xml::Reader<&'a [u8]>)
    ensures
        unread(r) == xml_events(xml@),
{
    let mut reader = quick_xml::Reader::from_str(xml);
    reader.config_mut().trim_text(true);
    reader
}

/// `quick_xml::Reader::read_event` gives the next event, the end of the text where none is left,
/// or fails at a fault. The name of an element and the decoded text are what `BytesStart::name`
/// and `BytesText::decode` give.
#[verifier::external_body]
fn read_xml_event<'a>(reader: &mut quick_xml::Reader<&'a [u8]>) -> (r: Result<
    XmlEvent,
    quick_xml::Error,
>)
    ensures
        match r {
            Ok(XmlEvent::Eof) => unread(*old(reader)).len() == 0,
            Ok(e) => {
                &&& unread(*old(reader)).len() > 0
                &&& unread(*old(reader))[0] == Some(e@)
                &&& unread(*final(reader)) == unread(*old(reader)).skip(1)
            },
            Err(_) => unread(*old(reader)).len() > 0 && unread(*old(reader))[0] is None,
        },
{
    Ok(match reader.read_event()? {
        quick_xml::events::Event::Start(e) => XmlEvent::Start(e.name().as_ref().to_vec()),
        quick_xml::events::Event::Text(t) => XmlEvent::Text(t.decode().ok().map(|s| s.into_owned())),
        quick_xml::events::Event::End(_) => XmlEvent::End,
        quick_xml::events::Event::Eof => XmlEvent::Eof,
        _ => XmlEvent::Other,
    })
}

/// A text that is not XML.
#[derive(Clone, Copy, Debug, PartialEq, Eq, Structural)]
pub struct XmlFault;

/// The events before the first fault.
pub open spec fn sound_events(events: Seq<Option<XmlView>>) -> Option<Seq<XmlView>>
    decreases events.len(),
{
    if events.len() == 0 {
        Some(seq![])
    } else {
        match (events[0], sound_events(events.skip(1))) {
            (Some(e), Some(rest)) => Some(seq![e] + rest),
            _ => None,
        }
    }
}

/// Reads the events of an XML text; fails where the text has a fault.
fn read_xml(xml: &str) -> (r: Result<Vec<XmlEvent>, XmlFault>)
    ensures
        match (r, sound_events(xml_events(xml@))) {
            (Ok(v), Some(events)) => event_views(v@) == events,
            (Err(_), None) => true,
            _ => false,
        },
{
    let mut reader = open_xml(xml);
    let mut events: Vec<XmlEvent> = Vec::new();
    let ghost all = sound_events(xml_events(xml@));
    assert(event_views(events@) =~= seq![]);
    loop
        invariant
            all == sound_events(xml_events(xml@)),
            match sound_events(unread(reader)) {
                Some(rest) => all == Some(event_views(events@) + rest),
                None => all is None,
            },
        decreases unread(reader).len(),
    {
        let ghost left = unread(reader);
        match read_xml_event(&mut reader) {
            Ok(XmlEvent::Eof) => {
                assert(event_views(events@) + seq![] =~= event_views(events@));
                return Ok(events);
            },
            Ok(e) => {
                let ghost before = event_views(events@);
                events.push(e);
                proof {
                    assert(event_views(events@) =~= before.push(e@));
                    if let Some(rest) = sound_events(left.skip(1)) {
                        assert(before + (seq![e@] + rest) =~= before.push(e@) + rest);
                    }
                }
            },
            Err(_) => return Err(XmlFault),
        }
    }
}

/// What reading the first `n` events has found: the texts directly behind the start of an element
/// with a name, and the element that the last event stands in. Nothing where such a text cannot be
/// decoded.
pub open spec fn found_texts(events: Seq<XmlView>, tag: Seq<u8>, n: nat) -> Option<
    (Seq<Seq<char>>, Seq<u8>),
>
    decreases n,
{
    if n == 0 {
        Some((seq![], seq![]))
    } else {
        match found_texts(events, tag, (n - 1) as nat) {
            Some((texts, current)) => match events[n - 1] {
                XmlView::Start(name) => Some((texts, name)),
                XmlView::Text(t) => if current == tag {
                    match t {
                        Some(s) => Some((texts.push(s), current)),
                        None => None,
                    }
                } else {
                    Some((texts, current))
                },
                XmlView::End => Some((texts, seq![])),
                _ => Some((texts, current)),
            },
            None => None,
        }
    }
}

/// The texts of the elements with a name.
pub open spec fn element_texts(events: Seq<XmlView>, tag: Seq<u8>) -> Option<Seq<Seq<char>>> {
    match found_texts(events, tag, events.len()) {
        Some((texts, _)) => Some(texts),
        None => None,
    }
}

/// Returns true when bytes are the same.
fn same_bytes(a: &Vec<u8>, b: &Vec<u8>) -> (r: bool)
    ensures
        r == (a@ == b@),
{
    if a.len() != b.len() {
        return false;
    }
    let mut i: usize = 0;
    while i < a.len()
        invariant
            i <= a.len(),
            a.len() == b.len(),
            forall|k: int| 0 <= k < i ==> a@[k] == b@[k],
        decreases a.len() - i,
    {
        if a[i] != b[i] {
            return false;
        }
        i += 1;
    }
    assert(a@ =~= b@);
    true
}

/// Copies bytes.
fn clone_bytes(a: &Vec<u8>) -> (r: Vec<u8>)
    ensures
        r@ == a@,
{
    let mut out: Vec<u8> = Vec::new();
    let mut i: usize = 0;
    while i < a.len()
        invariant
            i <= a.len(),
            out@ == a@.take(i as int),
        decreases a.len() - i,
    {
        out.push(a[i]);
        assert(out@ =~= a@.take(i + 1));
        i += 1;
    }
    assert(a@.take(a.len() as int) =~= a@);
    out
}

/// Collects the texts of the elements with a name from the events of an XML text.
pub fn collect_element_texts(events: &Vec<XmlEvent>, tag: &str) -> (r: Result<Vec<String>, XmlFault>)
    ensures
        match (r, element_texts(event_views(events@), encode_utf8(tag@))) {
            (Ok(v), Some(texts)) => text::texts(v@) == texts,
            (Err(_), None) => true,
            _ => false,
        },
{
    let name: Vec<u8> = tag.as_bytes_vec();
    let ghost all = event_views(events@);
    let mut texts: Vec<String> = Vec::new();
    let mut current: Vec<u8> = Vec::new();
    assert(text::texts(texts@) =~= seq![]);
    let mut i: usize = 0;
    while i < events.len()
        invariant
            i <= events.len(),
            name@ == encode_utf8(tag@),
            all == event_views(events@),
            found_texts(all, encode_utf8(tag@), i as nat) == Some((text::texts(texts@), current@)),
        decreases events.len() - i,
    {
        assert(all[i as int] == events@[i as int]@);
        match &events[i] {
            XmlEvent::Start(start) => {
                current = clone_bytes(start);
            },
            XmlEvent::Text(t) => {
                if same_bytes(&current, &name) {
                    match t {
                        Some(s) => {
                            proof {
                                text::lemma_texts_push(texts@, *s);
                            }
                            texts.push(s.clone());
                        },
                        None => {
                            proof {
                                lemma_not_found(all, encode_utf8(tag@), (i + 1) as nat, all.len());
                            }
                            return Err(XmlFault);
                        },
                    }
                }
            },
            XmlEvent::End => {
                current = Vec::new();
            },
            _ => {},
        }
        i += 1;
    }
    Ok(texts)
}

/// Where a text cannot be decoded, reading more finds nothing.
proof fn lemma_not_found(events: Seq<XmlView>, tag: Seq<u8>, n: nat, m: nat)
    requires
        n <= m,
        found_texts(events, tag, n) is None,
    ensures
        found_texts(events, tag, m) is None,
    decreases m,
{
    if n < m {
        lemma_not_found(events, tag, n, (m - 1) as nat);
    }
}

/// Parses metric values from AWS CloudWatch XML responses: the texts of the elements with a name,
/// each of which is a decimal number where it is a value.
pub fn parse_metric_values(xml: &str, metric_tag: &str) -> (r: Result<Vec<String>, XmlFault>)
    ensures
        match (r, sound_events(xml_events(xml@))) {
            (Ok(v), Some(events)) => element_texts(events, encode_utf8(metric_tag@)) == Some(
                text::texts(v@),
            ),
            (Err(_), Some(events)) => element_texts(events, encode_utf8(metric_tag@)) is None,
            (Err(_), None) => true,
            (Ok(_), None) => false,
        },
{
    match read_xml(xml) {
        Ok(events) => collect_element_texts(&events, metric_tag),
        Err(fault) => Err(fault),
    }
}

} // verus!
