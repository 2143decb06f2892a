//! Operational statistics.

use commons_bot::config::Config;
use commons_bot::stats::{
    FreeTierUse, MetricReading, StatsSnapshot, XmlEvent, XmlFault, collect_element_texts,
    metric_request, parse_metric_values, render_summary_block, render_week_chart, stats_plan,
    weekday_label,
};

fn no_stats() -> StatsSnapshot {
    StatsSnapshot {
        invocations_24h: 0,
        invocations_7d: 0,
        errors_24h: 0,
        errors_7d: 0,
        errors_month: 0,
        min_duration_ms: "0".into(),
        avg_duration_ms: "0".into(),
        max_duration_ms: "0".into(),
        dynamodb_size_bytes: 0,
        daily_invocations: [0; 7],
        daily_labels: [
            String::new(),
            String::new(),
            String::new(),
            String::new(),
            String::new(),
            String::new(),
            String::new(),
        ],
    }
}

#[test]
fn renders_summary_block_for_monospace() {
    let stats = StatsSnapshot {
        invocations_24h: 2,
        invocations_7d: 10,
        errors_month: 1,
        avg_duration_ms: "45".into(),
        ..no_stats()
    };
    let block = render_summary_block(&stats);
    assert!(block.contains("Calls"));
    assert!(block.contains("Duration"));
}

#[test]
fn renders_week_chart() {
    let chart = render_week_chart(
        &[1, 10, 4, 0, 2, 5, 3],
        &["Mon", "Tue", "Wed", "Thu", "Fri", "Sat", "Sun"],
    );
    assert!(chart.contains("Tue"));
    assert!(chart.contains("######"));
}

#[test]
fn parses_cloudwatch_metric_xml() {
    let xml = r#"
        <GetMetricStatisticsResponse>
          <GetMetricStatisticsResult>
            <Datapoints>
              <member><Sum>3.0</Sum></member>
              <member><Sum>7.0</Sum></member>
            </Datapoints>
          </GetMetricStatisticsResult>
        </GetMetricStatisticsResponse>
    "#;
    let values = parse_metric_values(xml, "Sum")
        .unwrap()
        .iter()
        .filter_map(|value| value.parse::<f64>().ok())
        .collect::<Vec<_>>();
    assert_eq!(values, vec![3.0, 7.0]);
}

#[test]
fn broken_xml_is_a_fault() {
    assert_eq!(parse_metric_values("<a><b></a>", "Sum"), Err(XmlFault));
    assert_eq!(parse_metric_values("", "Sum"), Ok(Vec::new()));
    assert_eq!(
        parse_metric_values("<Sum>1</Sum><Average>2</Average>", "Average"),
        Ok(vec!["2".to_string()])
    );
}

#[test]
fn texts_of_an_element_are_collected() {
    let events = vec![
        XmlEvent::Start(b"Sum".to_vec()),
        XmlEvent::Text(Some("3".into())),
        XmlEvent::End,
        XmlEvent::Start(b"Other".to_vec()),
        XmlEvent::Text(Some("4".into())),
        XmlEvent::End,
        XmlEvent::Eof,
    ];
    assert_eq!(collect_element_texts(&events, "Sum"), Ok(vec!["3".to_string()]));
    let events = vec![XmlEvent::Start(b"Sum".to_vec()), XmlEvent::Text(None)];
    assert_eq!(collect_element_texts(&events, "Sum"), Err(XmlFault));
}

#[test]
fn bars_of_a_week_are_scaled() {
    let chart = render_week_chart(
        &[1, 10, 4, 0, 2, 5, 3],
        &["Mon", "Tue", "Wed", "Thu", "Fri", "Sat", "Sun"],
    );
    let lines: Vec<&str> = chart.lines().collect();
    assert_eq!(lines.len(), 7);
    for (line, value) in lines.iter().zip([1_u64, 10, 4, 0, 2, 5, 3]) {
        let width = ((value as f64 / 10.0) * 20.0).round().max(1.0) as usize;
        assert_eq!(line.matches('#').count(), width, "{line}");
    }
}

#[test]
fn days_of_the_week_are_named() {
    let names: Vec<&str> = (0..7).map(weekday_label).collect();
    assert_eq!(names, vec!["Mon", "Tue", "Wed", "Thu", "Fri", "Sat", "Sun"]);
}

#[test]
fn metrics_are_asked_for() {
    let list = metric_request("bot", "Errors", "Sum", "a", "b", 3600);
    assert!(list.contains(&("MetricName".to_string(), "Errors".to_string())));
    assert!(list.contains(&("Period".to_string(), "3600".to_string())));
    assert_eq!(list.len(), 10);
}

#[test]
fn the_dashboard_shows_shares() {
    let shares = FreeTierUse {
        request_percent: "1.5".into(),
        duration_percent: "2.5".into(),
        gb_seconds: "100".into(),
        storage_percent: "0.125".into(),
        storage_gb: "0.0312".into(),
    };
    let text = no_stats().render_text(&shares, &Config::from_env_lookup(&vec![]));
    for share in ["1.5", "2.5", "100", "0.125", "0.0312"] {
        assert!(text.contains(share), "{share}");
    }
}

#[test]
fn readings_are_planned() {
    let plan = stats_plan();
    let shown = |reading: &MetricReading| {
        (reading.metric, reading.statistic, reading.seconds_back, reading.period)
    };
    assert_eq!(shown(&plan.invocations_24h), ("Invocations", "Sum", 86_400, 3_600));
    assert_eq!(shown(&plan.invocations_7d), ("Invocations", "Sum", 604_800, 86_400));
    assert_eq!(shown(&plan.errors_24h), ("Errors", "Sum", 86_400, 3_600));
    assert_eq!(shown(&plan.errors_7d), ("Errors", "Sum", 604_800, 86_400));
    assert_eq!(shown(&plan.errors_month), ("Errors", "Sum", 2_592_000, 86_400));
    assert_eq!(shown(&plan.min_duration), ("Duration", "Minimum", 604_800, 86_400));
    assert_eq!(shown(&plan.avg_duration), ("Duration", "Average", 604_800, 86_400));
    assert_eq!(shown(&plan.max_duration), ("Duration", "Maximum", 604_800, 86_400));
    assert_eq!(shown(&plan.daily_invocations), ("Invocations", "Sum", 86_400, 86_400));
    assert_eq!(plan.chart_days_ago, [6, 5, 4, 3, 2, 1, 0]);
}
