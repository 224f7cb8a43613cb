use kata_pulse::utils::metrics_converter::cadvisor::PrometheusFormat;
use kata_pulse::utils::prometheus_parser::{
    extract_base_metric_name, parse_labels, parse_line, parse_metadata_line,
    parse_metric_sample, LineError, LineItem, MetricSample, ParseError, PrometheusMetric,
    PrometheusMetrics, SampleError,
};

fn written(token: &str) -> Option<String> {
    token.parse::<f64>().ok().map(|v| v.to_string())
}

fn float(token: &str) -> Option<f64> {
    token.parse::<f64>().ok()
}

#[test]
fn test_parse_simple_metric() {
    let content = r#"# HELP requests_total Total requests
# TYPE requests_total counter
requests_total 42
"#;
    let metrics = PrometheusMetrics::parse(content, float).unwrap();
    assert!(metrics.metrics.contains_key("requests"));
    let metric = metrics.metrics.get("requests").unwrap();
    assert_eq!(metric.samples.len(), 1);
    assert_eq!(metric.samples[0].value, 42.0);
}

#[test]
fn test_parse_metric_with_labels() {
    let content = r#"# HELP http_requests_total Total HTTP requests
# TYPE http_requests_total counter
http_requests_total{method="GET",status="200"} 100
http_requests_total{method="POST",status="201"} 10
"#;
    let metrics = PrometheusMetrics::parse(content, float).unwrap();
    let metric = metrics.metrics.get("http_requests").unwrap();
    assert_eq!(metric.samples.len(), 2);
    assert_eq!(metric.samples[0].labels.get("method").unwrap(), "GET");
    assert_eq!(metric.samples[1].labels.get("status").unwrap(), "201");
}

#[test]
fn test_parse_histogram() {
    let content = r#"# HELP request_duration_seconds Request duration
# TYPE request_duration_seconds histogram
request_duration_seconds_bucket{le="0.1"} 10
request_duration_seconds_bucket{le="1.0"} 50
request_duration_seconds_sum 123.45
request_duration_seconds_count 60
"#;
    let metrics = PrometheusMetrics::parse(content, float).unwrap();
    let metric = metrics.metrics.get("request_duration_seconds").unwrap();
    assert_eq!(metric.samples.len(), 4);
}

#[test]
fn test_parse_with_timestamp() {
    let content = "request_total{path=\"/api\"} 42 1234567890";
    let sample = parse_metric_sample(content).unwrap();
    assert_eq!(float(&sample.value), Some(42.0));
    assert_eq!(sample.timestamp, Some(1234567890));
    assert_eq!(sample.labels.get("path").unwrap(), "/api");
}

#[test]
fn parse_records_help_and_type_under_the_base_name() {
    let content = "# HELP requests_total Total requests\n# TYPE requests_total counter\nrequests_total 42\n";
    let metrics = PrometheusMetrics::parse(content, float).unwrap();
    let metric = metrics.metrics.get("requests").unwrap();
    assert_eq!(metric.name, "requests");
    assert_eq!(metric.help.as_deref(), Some("Total requests"));
    assert_eq!(metric.metric_type.as_deref(), Some("counter"));
    assert_eq!(metric.samples[0].name, "requests_total");
    assert_eq!(metric.samples[0].timestamp, None);
    assert!(metric.samples[0].labels.is_empty());
    assert_eq!(metrics.metrics.len(), 1);
}

#[test]
fn parse_passes_over_empty_lines_and_comments() {
    let content = "\n   \n# a comment\n#\ngood 1.5\r\n  spaced{a=\"b\"}   2   17  \n";
    let metrics = PrometheusMetrics::parse(content, float).unwrap();
    assert_eq!(metrics.metrics.keys(), vec!["good".to_string(), "spaced".to_string()]);
    assert_eq!(metrics.metrics.get("good").unwrap().samples[0].value, 1.5);
    let spaced = &metrics.metrics.get("spaced").unwrap().samples[0];
    assert_eq!(spaced.value, 2.0);
    assert_eq!(spaced.timestamp, Some(17));
    assert_eq!(spaced.labels.get("a").unwrap(), "b");
}

#[test]
fn parse_refuses_a_line_without_closing_brace() {
    match PrometheusMetrics::parse("up{job=\"a\" 1", float) {
        Err(ParseError { line: 0, error: LineError::Malformed(SampleError::MissingClosingBrace) }) => {}
        other => panic!("unexpected result: {:?}", other.map(|_| ())),
    }
}

#[test]
fn parse_refuses_a_value_that_is_no_number() {
    match PrometheusMetrics::parse("up notanumber", float) {
        Err(ParseError { line: 0, error: LineError::InvalidValue(value) }) => {
            assert_eq!(value, "notanumber")
        }
        other => panic!("unexpected result: {:?}", other.map(|_| ())),
    }
}

#[test]
fn parse_gives_no_partial_result() {
    let content = "good 1\n# HELP good fine\nno_value\nlater 2\nbad{ 3\n";
    match PrometheusMetrics::parse(content, float) {
        Err(ParseError { line: 2, error: LineError::Malformed(SampleError::InvalidFormat) }) => {}
        other => panic!("unexpected result: {:?}", other.map(|_| ())),
    }
}

#[test]
fn parse_tells_the_first_line_that_is_wrong() {
    let cases: Vec<(&str, usize)> = vec![
        ("a{", 0),
        ("ok 1\nbad{novalue} 5", 1),
        ("ok 1\n\n\nnot_a_number abc\nbad{", 3),
        ("# HELP lonely", 0),
        ("a{} ", 0),
        ("ok 1\nok 2\nok 3\na}b{c=\"d\"} 1\n", 3),
    ];
    for (content, line) in cases {
        match PrometheusMetrics::parse(content, float) {
            Err(e) => assert_eq!(e.line, line, "{:?}", content),
            Ok(_) => panic!("{:?} should be refused", content),
        }
    }
}

#[test]
fn parse_of_empty_text_is_empty() {
    let metrics: PrometheusMetrics<f64> = PrometheusMetrics::parse("", float).unwrap();
    assert!(metrics.metrics.is_empty());
    let fresh: PrometheusMetrics<f64> = PrometheusMetrics::new();
    assert!(fresh.metrics.is_empty());
    let default: PrometheusMetrics<f64> = PrometheusMetrics::default();
    assert!(default.metrics.is_empty());
}

#[test]
fn parse_hands_the_value_as_written_to_the_reader() {
    let metrics = PrometheusMetrics::parse("a 0x10\nb +7\nc NaN\n", |token: &str| {
        Some(token.to_string())
    })
    .unwrap();
    assert_eq!(metrics.metrics.get("a").unwrap().samples[0].value, "0x10");
    assert_eq!(metrics.metrics.get("b").unwrap().samples[0].value, "+7");
    assert_eq!(metrics.metrics.get("c").unwrap().samples[0].value, "NaN");
}

#[test]
fn base_name_drops_the_first_known_suffix() {
    assert_eq!(extract_base_metric_name("requests_total"), "requests");
    assert_eq!(extract_base_metric_name("a_count"), "a");
    assert_eq!(extract_base_metric_name("a_sum"), "a");
    assert_eq!(extract_base_metric_name("a_bucket"), "a");
    assert_eq!(extract_base_metric_name("a_info"), "a");
    assert_eq!(extract_base_metric_name("a_created"), "a");
    assert_eq!(extract_base_metric_name("plain"), "plain");
    assert_eq!(extract_base_metric_name(""), "");
    assert_eq!(extract_base_metric_name("_total"), "");
    assert_eq!(extract_base_metric_name("a_total_count"), "a_total");
    assert_eq!(extract_base_metric_name("a_count_total"), "a_count");
    assert_eq!(extract_base_metric_name("total"), "total");
    assert_eq!(extract_base_metric_name("a_totals"), "a_totals");
}

#[test]
fn metadata_line_splits_at_the_first_space() {
    assert_eq!(
        parse_metadata_line("# HELP requests_total Total requests", "# HELP "),
        Some(("requests_total".to_string(), "Total requests".to_string()))
    );
    assert_eq!(
        parse_metadata_line("# TYPE requests_total counter", "# TYPE "),
        Some(("requests_total".to_string(), "counter".to_string()))
    );
    assert_eq!(parse_metadata_line("# HELP lonely", "# HELP "), None);
    assert_eq!(parse_metadata_line("# TYPE x y", "# HELP "), None);
    assert_eq!(
        parse_metadata_line("# HELP x ", "# HELP "),
        Some(("x".to_string(), "".to_string()))
    );
    assert_eq!(
        parse_metadata_line("# HELP  y", "# HELP "),
        Some(("".to_string(), "y".to_string()))
    );
    assert_eq!(parse_metadata_line("", "# HELP "), None);
}

#[test]
fn labels_are_trimmed_unquoted_and_unescaped() {
    let labels = parse_labels(r#"method="GET", status ="200" ,,path="/a\"b\\n\n\t""#).unwrap();
    assert_eq!(labels.get("method").unwrap(), "GET");
    assert_eq!(labels.get("status").unwrap(), "200");
    assert_eq!(labels.get("path").unwrap(), "/a\"b\\\n\n\t");
    assert_eq!(labels.len(), 3);
}

#[test]
fn labels_unescape_in_the_order_quote_newline_tab_backslash() {
    let labels = parse_labels(r#"a="x\\ny",b="\\\\",c=""q"",d=plain,e="#).unwrap();
    assert_eq!(labels.get("a").unwrap(), "x\\\ny");
    assert_eq!(labels.get("b").unwrap(), "\\\\");
    assert_eq!(labels.get("c").unwrap(), "q");
    assert_eq!(labels.get("d").unwrap(), "plain");
    assert_eq!(labels.get("e").unwrap(), "");
}

#[test]
fn label_value_keeps_white_space_before_its_quote() {
    let labels = parse_labels(r#"status = "200""#).unwrap();
    assert_eq!(labels.get("status").unwrap(), " \"200");
}

#[test]
fn later_label_replaces_an_earlier_one() {
    let labels = parse_labels(r#"a="1",a="2""#).unwrap();
    assert_eq!(labels.get("a").unwrap(), "2");
    assert_eq!(labels.len(), 1);
}

#[test]
fn empty_label_text_gives_no_labels() {
    assert!(parse_labels("").unwrap().is_empty());
    assert!(parse_labels(",,").unwrap().is_empty());
}

#[test]
fn label_without_equals_sign_is_an_error() {
    match parse_labels(r#"a="1", novalue ,b="2""#) {
        Err(SampleError::InvalidLabel(pair)) => assert_eq!(pair, "novalue"),
        other => panic!("unexpected result: {:?}", other.map(|_| ())),
    }
    match parse_labels(" ") {
        Err(SampleError::InvalidLabel(pair)) => assert_eq!(pair, ""),
        other => panic!("unexpected result: {:?}", other.map(|_| ())),
    }
}

#[test]
fn sample_without_labels() {
    let sample = parse_metric_sample("up 1").unwrap();
    assert_eq!(sample.name, "up");
    assert_eq!(sample.value, "1");
    assert_eq!(sample.timestamp, None);
    assert!(sample.labels.is_empty());
}

#[test]
fn sample_timestamp_must_be_an_integer() {
    assert_eq!(parse_metric_sample("up 1 -5").unwrap().timestamp, Some(-5));
    assert_eq!(parse_metric_sample("up 1 +5").unwrap().timestamp, Some(5));
    assert_eq!(parse_metric_sample("up 1 007").unwrap().timestamp, Some(7));
    assert_eq!(parse_metric_sample("up 1 5.0").unwrap().timestamp, None);
    assert_eq!(parse_metric_sample("up 1 abc").unwrap().timestamp, None);
    assert_eq!(parse_metric_sample("up 1 -").unwrap().timestamp, None);
    assert_eq!(
        parse_metric_sample("up 1 9223372036854775807").unwrap().timestamp,
        Some(i64::MAX)
    );
    assert_eq!(
        parse_metric_sample("up 1 -9223372036854775808").unwrap().timestamp,
        Some(i64::MIN)
    );
    assert_eq!(parse_metric_sample("up 1 9223372036854775808").unwrap().timestamp, None);
    assert_eq!(parse_metric_sample("up 1 99999999999999999999999").unwrap().timestamp, None);
    assert_eq!(parse_metric_sample("up 1 2 3").unwrap().timestamp, Some(2));
}

#[test]
fn sample_errors() {
    assert!(matches!(parse_metric_sample("a{b=\"c\" 1"), Err(SampleError::MissingClosingBrace)));
    assert!(matches!(parse_metric_sample("a}b{c=\"d\"} 1"), Err(SampleError::MisplacedBrace)));
    assert!(matches!(parse_metric_sample("novalue"), Err(SampleError::InvalidFormat)));
    assert!(matches!(parse_metric_sample(""), Err(SampleError::InvalidFormat)));
    assert!(matches!(parse_metric_sample("a{}"), Err(SampleError::MissingValue)));
    assert!(matches!(parse_metric_sample("a   "), Err(SampleError::MissingValue)));
    assert!(matches!(parse_metric_sample("a{b} 1"), Err(SampleError::InvalidLabel(_))));
}

#[test]
fn sample_with_empty_braces_has_no_labels() {
    let sample = parse_metric_sample("a{} 1").unwrap();
    assert_eq!(sample.name, "a");
    assert!(sample.labels.is_empty());
    assert_eq!(sample.value, "1");
}

#[test]
fn sample_name_ends_at_the_first_space_without_braces() {
    let sample = parse_metric_sample("a b c").unwrap();
    assert_eq!(sample.name, "a");
    assert_eq!(sample.value, "b");
    assert_eq!(sample.timestamp, None);
}

#[test]
fn lines_are_classified() {
    assert!(matches!(parse_line(""), LineItem::Skip));
    assert!(matches!(parse_line("   \t"), LineItem::Skip));
    assert!(matches!(parse_line("# comment"), LineItem::Skip));
    assert!(matches!(parse_line("#HELP x y"), LineItem::Skip));
    match parse_line("  # HELP x some text  ") {
        LineItem::Help { metric, text } => {
            assert_eq!(metric, "x");
            assert_eq!(text, "some text");
        }
        _ => panic!("a HELP line"),
    }
    match parse_line("# TYPE x gauge") {
        LineItem::Type { metric, kind } => {
            assert_eq!(metric, "x");
            assert_eq!(kind, "gauge");
        }
        _ => panic!("a TYPE line"),
    }
    match parse_line("x{a=\"b\"} 3") {
        LineItem::Sample(sample) => assert_eq!(sample.value, "3"),
        _ => panic!("a sample line"),
    }
    assert!(matches!(parse_line("x"), LineItem::Malformed(SampleError::InvalidFormat)));
    assert!(matches!(parse_line("# HELP lonely"), LineItem::Sample(_)));
}

#[test]
fn metrics_are_grouped_by_base_name() {
    let mut metrics: PrometheusMetrics<u64> = PrometheusMetrics::new();
    metrics.set_type("x_total", "counter".to_string());
    metrics.add_sample(MetricSample {
        name: "x_total".to_string(),
        labels: Default::default(),
        value: 1,
        timestamp: None,
    });
    metrics.add_sample(MetricSample {
        name: "x_count".to_string(),
        labels: Default::default(),
        value: 2,
        timestamp: Some(5),
    });
    metrics.set_help("x", "about x".to_string());
    assert!(metrics.add_line(LineItem::Skip, Some(9)).is_ok());
    assert!(metrics.add_line(parse_line("y 3"), Some(3)).is_ok());
    match metrics.add_line(parse_line("z 4"), None) {
        Err(LineError::InvalidValue(value)) => assert_eq!(value, "4"),
        other => panic!("unexpected result: {:?}", other),
    }
    assert!(matches!(
        metrics.add_line(parse_line("w"), Some(1)),
        Err(LineError::Malformed(SampleError::InvalidFormat))
    ));
    assert_eq!(metrics.metrics.keys(), vec!["x".to_string(), "y".to_string()]);
    let x = metrics.metrics.get("x").unwrap();
    assert_eq!(x.name, "x");
    assert_eq!(x.metric_type.as_deref(), Some("counter"));
    assert_eq!(x.help.as_deref(), Some("about x"));
    assert_eq!(x.samples.len(), 2);
    assert_eq!(x.samples[0].value, 1);
    assert_eq!(x.samples[1].name, "x_count");
    assert_eq!(x.samples[1].timestamp, Some(5));
    let named: PrometheusMetric<u64> = PrometheusMetric::named("n");
    assert_eq!(named.name, "n");
    assert!(named.samples.is_empty());
    assert!(named.help.is_none());
    assert!(named.metric_type.is_none());
}

#[test]
fn test_prometheus_metrics_to_format() {
    let content = r#"# HELP requests_total Total requests
# TYPE requests_total counter
requests_total 42
"#;
    let metrics = PrometheusMetrics::parse(content, written).unwrap();
    let output = metrics.to_prometheus_format(None);

    assert!(output.contains("# HELP requests Total requests"));
    assert!(output.contains("# TYPE requests counter"));
    assert!(output.contains("requests_total 42"));
}

#[test]
fn test_prometheus_metrics_with_labels_to_format() {
    let content = r#"# HELP http_requests_total Total HTTP requests
# TYPE http_requests_total counter
http_requests_total{method="GET",status="200"} 100
http_requests_total{method="POST",status="201"} 10
"#;
    let metrics = PrometheusMetrics::parse(content, written).unwrap();
    let output = metrics.to_prometheus_format(None);

    assert!(output.contains("http_requests_total"));
    assert!(output.contains("method=\"GET\""));
    assert!(output.contains("status=\"200\""));
    assert!(output.contains("100"));
    assert!(output.contains("method=\"POST\""));
    assert!(output.contains("10"));
}

#[test]
fn test_prometheus_metrics_roundtrip() {
    let content = r#"# HELP test_metric Test metric
# TYPE test_metric gauge
test_metric{label1="value1",label2="value2"} 123.45 1234567890
test_metric{label1="value3"} 456.78
"#;
    let metrics = PrometheusMetrics::parse(content, written).unwrap();
    let output = metrics.to_prometheus_format(None);

    assert!(output.contains("test_metric"));
    assert!(output.contains("label1=\"value1\""));
    assert!(output.contains("123.45"));
    assert!(output.contains("1234567890"));
    assert!(output.contains("456.78"));
}

#[test]
fn scraped_text_is_written_back_exactly() {
    let content = "# TYPE b gauge\nb{x=\"1\",y=\"q\\\"r\"} 2.5 -17\n# HELP a_total about a\na_total 1\na_count 3 9\nc 7\n";
    let metrics = PrometheusMetrics::parse(content, written).unwrap();
    assert_eq!(
        metrics.to_prometheus_format(Some("ignored")),
        "# TYPE b gauge\nb{x=\"1\",y=\"q\\\"r\"} 2.5 -17\n# HELP a about a\na_total 1\na_count 3 9\nc 7\n"
    );
    let empty: PrometheusMetrics<String> = PrometheusMetrics::new();
    assert_eq!(empty.to_prometheus_format(None), "");
}

#[test]
fn smallest_timestamp_is_written_in_full() {
    let metrics = PrometheusMetrics::parse("a 1 -9223372036854775808\n", written).unwrap();
    assert_eq!(metrics.to_prometheus_format(None), "a 1 -9223372036854775808\n");
}
