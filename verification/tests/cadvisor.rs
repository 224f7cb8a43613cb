use kata_pulse::strmap::StrMap;
use kata_pulse::utils::metrics_converter::cadvisor::{
    escape_label_value, InterfaceMetrics, MemoryMetrics, NetworkMetrics, ProcessMetrics,
    PrometheusFormat, StandardLabels,
};

#[test]
fn test_memory_metrics_prometheus_format() {
    let memory = MemoryMetrics {
        usage_bytes: 536870912,
        working_set_bytes: Some(268435456),
        cache_bytes: Some(268435456),
        rss_bytes: Some(268435456),
        swap_bytes: Some(0),
        mapped_file_bytes: None,
        failures: StrMap::new(),
        standard_labels: StandardLabels::default(),
    };

    let output = memory.to_prometheus_format(None);
    assert!(output.contains("container_memory_usage_bytes"));
    assert!(output.contains("536870912"));
    assert!(output.contains("container_memory_working_set_bytes"));
    assert!(output.contains("container_memory_cache_bytes"));
}

#[test]
fn test_network_metrics_prometheus_format() {
    let network = NetworkMetrics {
        receive_bytes_total: 1024000,
        transmit_bytes_total: 2048000,
        receive_packets_total: 10000,
        transmit_packets_total: 20000,
        receive_errors_total: Some(5),
        transmit_errors_total: None,
        receive_packets_dropped_total: None,
        transmit_packets_dropped_total: None,
        per_interface: Default::default(),
        standard_labels: StandardLabels::default(),
    };

    let output = network.to_prometheus_format(Some("sandbox-1"));
    assert!(output.contains("container_network_receive_bytes_total"));
    assert!(output.contains("1024000"));
    assert!(output.contains("container_network_transmit_bytes_total"));
    assert!(output.contains("container_network_receive_errors_total"));
}

#[test]
fn test_process_metrics_prometheus_format() {
    let process = ProcessMetrics {
        count: 42,
        thread_count: 128,
        thread_count_max: Some(256),
        file_descriptors: 512,
        tasks_by_state: StrMap::new(),
        standard_labels: StandardLabels {
            container: "".to_string(),
            id: "app-pod".to_string(),
            image: "".to_string(),
            name: "app-pod".to_string(),
            namespace: "default".to_string(),
            pod: "app-pod".to_string(),
        },
    };

    let output = process.to_prometheus_format(Some("app-pod"));
    assert!(output.contains("container_processes_count"));
    assert!(output.contains("42"));
    assert!(output.contains("container_threads_count"));
    assert!(output.contains("128"));
    assert!(output.contains("container_threads_max_count"));
    assert!(output.contains(r#"id="app-pod""#));
    assert!(output.contains(r#"name="app-pod""#));
    assert!(output.contains(r#"pod="app-pod""#));
}

#[test]
fn escape_label_value_escapes_backslash_quote_and_newline() {
    assert_eq!(escape_label_value("plain"), "plain");
    assert_eq!(escape_label_value(""), "");
    assert_eq!(escape_label_value("a\\b"), "a\\\\b");
    assert_eq!(escape_label_value("say \"hi\""), "say \\\"hi\\\"");
    assert_eq!(escape_label_value("line1\nline2"), "line1\\nline2");
    assert_eq!(escape_label_value("tab\tstays"), "tab\tstays");
    assert_eq!(escape_label_value("ü\\\"\n"), "ü\\\\\\\"\\n");
}

#[test]
fn standard_labels_new_fills_the_six_labels() {
    let labels = StandardLabels::new("uid-1", "pod-1", "ns-1");
    assert_eq!(labels.container, "kata");
    assert_eq!(labels.id, "uid-1");
    assert_eq!(labels.image, "unknown");
    assert_eq!(labels.name, "pod-1");
    assert_eq!(labels.namespace, "ns-1");
    assert_eq!(labels.pod, "pod-1");
}

#[test]
fn label_string_is_exact() {
    let labels = StandardLabels::new("uid-1", "pod-1", "ns-1");
    assert_eq!(
        labels.to_label_string(),
        r#"{container="kata",id="uid-1",image="unknown",name="pod-1",namespace="ns-1",pod="pod-1"}"#
    );
    assert_eq!(
        labels.to_label_string_with_extras(&[("cpu", "total"), ("x", "a\"b")]),
        r#"{container="kata",id="uid-1",image="unknown",name="pod-1",namespace="ns-1",pod="pod-1",cpu="total",x="a\"b"}"#
    );
    assert_eq!(labels.to_label_string_with_extras(&[]), labels.to_label_string());
}

#[test]
fn default_labels_are_empty() {
    assert_eq!(
        StandardLabels::default().to_label_string(),
        r#"{container="",id="",image="",name="",namespace="",pod=""}"#
    );
}

#[test]
fn memory_text_is_exact() {
    let mut failures = StrMap::new();
    failures.insert("pgfault:container", 7u64);
    failures.insert("malformed", 1u64);
    failures.insert("a:b:c", 2u64);
    failures.insert("pgmajfault:hierarchy", 0u64);
    let memory = MemoryMetrics {
        usage_bytes: 600,
        working_set_bytes: Some(10),
        cache_bytes: None,
        rss_bytes: Some(0),
        swap_bytes: None,
        mapped_file_bytes: Some(99),
        failures,
        standard_labels: StandardLabels::new("u", "p", "n"),
    };
    let l = r#"{container="kata",id="u",image="unknown",name="p",namespace="n",pod="p"}"#;
    let f1 = r#"{container="kata",id="u",image="unknown",name="p",namespace="n",pod="p",failure_type="pgfault",scope="container"}"#;
    let f2 = r#"{container="kata",id="u",image="unknown",name="p",namespace="n",pod="p",failure_type="pgmajfault",scope="hierarchy"}"#;
    let expected = format!(
        "# HELP container_memory_usage_bytes Memory usage in bytes\n\
         # TYPE container_memory_usage_bytes gauge\n\
         container_memory_usage_bytes{l} 600\n\
         # HELP container_memory_working_set_bytes Working set size in bytes\n\
         # TYPE container_memory_working_set_bytes gauge\n\
         container_memory_working_set_bytes{l} 10\n\
         # HELP container_memory_rss_bytes Resident set size in bytes\n\
         # TYPE container_memory_rss_bytes gauge\n\
         container_memory_rss_bytes{l} 0\n\
         # HELP container_memory_failures_total Memory failure count\n\
         # TYPE container_memory_failures_total counter\n\
         container_memory_failures_total{f1} 7\n\
         container_memory_failures_total{f2} 0\n",
        l = l,
        f1 = f1,
        f2 = f2
    );
    assert_eq!(memory.to_prometheus_format(None), expected);
}

#[test]
fn memory_default_renders_usage_only() {
    let memory = MemoryMetrics::default();
    assert_eq!(
        memory.to_prometheus_format(Some("ignored")),
        "# HELP container_memory_usage_bytes Memory usage in bytes\n\
         # TYPE container_memory_usage_bytes gauge\n\
         container_memory_usage_bytes{container=\"\",id=\"\",image=\"\",name=\"\",namespace=\"\",pod=\"\"} 0\n"
    );
}

#[test]
fn largest_value_is_written_in_full() {
    let memory = MemoryMetrics { usage_bytes: u64::MAX, ..MemoryMetrics::default() };
    assert!(memory
        .to_prometheus_format(None)
        .ends_with("} 18446744073709551615\n"));
}

#[test]
fn process_text_is_exact() {
    let mut tasks = StrMap::new();
    tasks.insert("running", 3u64);
    tasks.insert("sleeping", 40u64);
    let process = ProcessMetrics {
        count: 42,
        thread_count: 0,
        thread_count_max: Some(256),
        file_descriptors: 512,
        tasks_by_state: tasks,
        standard_labels: StandardLabels::new("u", "p", "n"),
    };
    let l = r#"{container="kata",id="u",image="unknown",name="p",namespace="n",pod="p"}"#;
    let r = r#"{container="kata",id="u",image="unknown",name="p",namespace="n",pod="p",state="running"}"#;
    let s = r#"{container="kata",id="u",image="unknown",name="p",namespace="n",pod="p",state="sleeping"}"#;
    let expected = format!(
        "# HELP container_processes_count Number of running processes\n\
         # TYPE container_processes_count gauge\n\
         container_processes_count{l} 42\n\
         # HELP container_threads_max_count Maximum number of threads allowed\n\
         # TYPE container_threads_max_count gauge\n\
         container_threads_max_count{l} 256\n\
         # HELP container_file_descriptors Number of open file descriptors\n\
         # TYPE container_file_descriptors gauge\n\
         container_file_descriptors{l} 512\n\
         # HELP container_tasks_state Number of tasks in each state\n\
         # TYPE container_tasks_state gauge\n\
         container_tasks_state{r} 3\n\
         container_tasks_state{s} 40\n",
        l = l,
        r = r,
        s = s
    );
    assert_eq!(process.to_prometheus_format(None), expected);
}

#[test]
fn process_default_renders_nothing() {
    assert_eq!(ProcessMetrics::default().to_prometheus_format(None), "");
}

#[test]
fn network_default_renders_nothing() {
    assert_eq!(NetworkMetrics::default().to_prometheus_format(None), "");
}

#[test]
fn network_totals_are_written_when_bytes_flowed() {
    let network = NetworkMetrics {
        receive_bytes_total: 0,
        transmit_bytes_total: 1,
        receive_packets_total: 2,
        transmit_packets_total: 3,
        transmit_errors_total: Some(4),
        receive_packets_dropped_total: Some(9),
        ..NetworkMetrics::default()
    };
    let l = r#"{container="",id="",image="",name="",namespace="",pod=""}"#;
    let expected = format!(
        "# HELP container_network_receive_bytes_total Total bytes received\n\
         # TYPE container_network_receive_bytes_total counter\n\
         container_network_receive_bytes_total{l} 0\n\
         # HELP container_network_transmit_bytes_total Total bytes transmitted\n\
         # TYPE container_network_transmit_bytes_total counter\n\
         container_network_transmit_bytes_total{l} 1\n\
         # HELP container_network_receive_packets_total Total packets received\n\
         # TYPE container_network_receive_packets_total counter\n\
         container_network_receive_packets_total{l} 2\n\
         # HELP container_network_transmit_packets_total Total packets transmitted\n\
         # TYPE container_network_transmit_packets_total counter\n\
         container_network_transmit_packets_total{l} 3\n\
         # HELP container_network_transmit_errors_total Transmit errors\n\
         # TYPE container_network_transmit_errors_total counter\n\
         container_network_transmit_errors_total{l} 4\n",
        l = l
    );
    assert_eq!(network.to_prometheus_format(None), expected);
}

#[test]
fn network_totals_are_left_out_when_only_packets_are_counted() {
    let network = NetworkMetrics {
        receive_packets_total: 2,
        transmit_packets_total: 3,
        ..NetworkMetrics::default()
    };
    assert_eq!(network.to_prometheus_format(None), "");
}

#[test]
fn network_per_interface_text_is_exact() {
    let mut per_interface = StrMap::new();
    per_interface.insert(
        "eth0",
        InterfaceMetrics {
            name: "eth0".to_string(),
            receive_bytes: 10,
            transmit_bytes: 0,
            receive_packets: 1,
            transmit_packets: 2,
            ..InterfaceMetrics::default()
        },
    );
    per_interface.insert(
        "tap0",
        InterfaceMetrics {
            name: "tap0".to_string(),
            receive_bytes: 0,
            transmit_bytes: 5,
            receive_packets: 0,
            transmit_packets: 0,
            ..InterfaceMetrics::default()
        },
    );
    let network = NetworkMetrics { per_interface, ..NetworkMetrics::default() };
    let e = r#"{container="",id="",image="",name="",namespace="",pod="",interface="eth0"}"#;
    let t = r#"{container="",id="",image="",name="",namespace="",pod="",interface="tap0"}"#;
    let expected = format!(
        "# HELP container_network_receive_bytes_total Total bytes received per interface\n\
         # TYPE container_network_receive_bytes_total counter\n\
         container_network_receive_bytes_total{e} 10\n\
         # HELP container_network_transmit_bytes_total Total bytes transmitted per interface\n\
         # TYPE container_network_transmit_bytes_total counter\n\
         container_network_transmit_bytes_total{t} 5\n\
         # HELP container_network_receive_packets_total Total packets received per interface\n\
         # TYPE container_network_receive_packets_total counter\n\
         container_network_receive_packets_total{e} 1\n\
         # HELP container_network_transmit_packets_total Total packets transmitted per interface\n\
         # TYPE container_network_transmit_packets_total counter\n\
         container_network_transmit_packets_total{e} 2\n",
        e = e,
        t = t
    );
    assert_eq!(network.to_prometheus_format(None), expected);
}
