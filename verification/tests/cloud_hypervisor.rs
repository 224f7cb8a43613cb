use kata_pulse::monitor::sandbox_cache::SandboxCache;
use kata_pulse::strmap::StrMap;
use kata_pulse::utils::metrics_converter::cadvisor::{PrometheusFormat, StandardLabels};
use kata_pulse::utils::metrics_converter::cloud_hypervisor::{
    cpu_jiffies_from, create_converter, disk_counts_from, memory_from, network_from,
    process_from, select, standard_labels_of, CloudHypervisorConverter, Family,
    MetricsConverter,
};
use kata_pulse::utils::metrics_converter::config::{
    CRILabelEnricher, ConversionConfig, EnrichedLabels, LabelEnricher,
};
use kata_pulse::utils::prometheus_parser::{MetricSample, PrometheusMetric, PrometheusMetrics};
use std::sync::Arc;

fn sample(name: &str, labels: &[(&str, &str)], value: u64) -> MetricSample<u64> {
    let mut map = StrMap::new();
    for (k, v) in labels {
        map.insert(k, v.to_string());
    }
    MetricSample { name: name.to_string(), labels: map, value, timestamp: None }
}

fn metrics_of(samples: Vec<MetricSample<u64>>) -> PrometheusMetrics<u64> {
    let mut metrics = PrometheusMetrics::new();
    for s in samples {
        metrics.add_sample(s);
    }
    metrics
}

struct MockLabelEnricher {
    enriched_labels: EnrichedLabels,
}

impl MockLabelEnricher {
    fn new(pod_name: &str, namespace: &str, uid: &str) -> Self {
        Self { enriched_labels: EnrichedLabels::new(uid, pod_name, namespace) }
    }
}

impl LabelEnricher for MockLabelEnricher {
    fn enrich(&self, _sandbox_id: &str) -> EnrichedLabels {
        self.enriched_labels.clone()
    }
}

#[test]
fn test_memory_conversion() {
    let mut metrics = PrometheusMetrics::new();
    metrics.metrics.insert(
        "kata_guest_meminfo",
        PrometheusMetric {
            name: "kata_guest_meminfo".to_string(),
            metric_type: Some("gauge".to_string()),
            help: None,
            samples: vec![
                sample("kata_guest_meminfo", &[("item", "memtotal")], 1000),
                sample("kata_guest_meminfo", &[("item", "memfree")], 400),
            ],
        },
    );

    let cache = Arc::new(SandboxCache::new());
    let enricher = CRILabelEnricher::new(cache);
    let converter = CloudHypervisorConverter::with_enricher(
        ConversionConfig::default(),
        enricher,
        "test-sandbox".to_string(),
    );
    let mem_metrics = converter.convert_memory(&metrics).unwrap();

    assert_eq!(mem_metrics.usage_bytes, 600);
}

#[test]
fn test_memory_conversion_with_enrichment() {
    let mut metrics = PrometheusMetrics::new();
    metrics.metrics.insert(
        "kata_guest_meminfo",
        PrometheusMetric {
            name: "kata_guest_meminfo".to_string(),
            metric_type: Some("gauge".to_string()),
            help: None,
            samples: vec![
                sample("kata_guest_meminfo", &[("item", "memtotal")], 1000),
                sample("kata_guest_meminfo", &[("item", "memfree")], 400),
            ],
        },
    );

    let config = ConversionConfig::default();
    let enricher = MockLabelEnricher::new("test-app", "production", "abc-123-def");
    let converter =
        CloudHypervisorConverter::with_enricher(config, enricher, "sandbox-xyz".to_string());

    let mem_metrics = converter.convert_memory(&metrics).unwrap();

    assert_eq!(mem_metrics.usage_bytes, 600);

    assert_eq!(mem_metrics.standard_labels.name, "test-app");
    assert_eq!(mem_metrics.standard_labels.namespace, "production");
    assert_eq!(mem_metrics.standard_labels.pod, "test-app");
}

#[test]
fn enrichment_renders_in_the_memory_text() {
    let metrics = metrics_of(vec![sample("kata_guest_meminfo", &[("item", "memtotal")], 5)]);
    let enricher = MockLabelEnricher::new("nginx-app", "web", "xyz-789");
    let converter = create_converter(ConversionConfig::default(), enricher, "sandbox-abc".to_string());
    let output = converter.convert_memory(&metrics).unwrap().to_prometheus_format(Some("sandbox-abc"));
    assert!(output.contains(r#"name="nginx-app""#));
    assert!(output.contains(r#"pod="nginx-app""#));
    assert!(output.contains(r#"namespace="web""#));
    assert!(output.contains(r#"id="xyz-789""#));
}

#[test]
fn standard_labels_come_from_the_enriched_labels() {
    let labels = standard_labels_of(&EnrichedLabels::new("u", "p", "n"));
    assert_eq!(labels.container, "kata");
    assert_eq!(labels.id, "u");
    assert_eq!(labels.image, "unknown");
    assert_eq!(labels.name, "p");
    assert_eq!(labels.namespace, "n");
    assert_eq!(labels.pod, "p");
}

#[test]
fn families_select_by_metric_name() {
    assert!(Family::Meminfo.includes("kata_guest_meminfo"));
    assert!(Family::Meminfo.includes("kata_guest_meminfo_extra"));
    assert!(!Family::Meminfo.includes("kata_guest_mem"));
    assert!(Family::Netdev.includes("kata_guest_netdev_stat"));
    assert!(!Family::Netdev.includes("kata_guest_netdev"));
    assert!(Family::Tasks.includes("kata_guest_tasks"));
    assert!(Family::Threads.includes("kata_shim_threads"));
    assert!(Family::Threads.includes("kata_hypervisor_threads"));
    assert!(Family::Threads.includes("kata_agent_threads"));
    assert!(Family::Threads.includes("kata_virtiofsd_threads"));
    assert!(!Family::Threads.includes("kata_other_threads"));
    assert!(!Family::Threads.includes("kata_shim_threads_x"));
    assert!(Family::Fds.includes("kata_shim_fds"));
    assert!(!Family::Fds.includes("kata_shim_threads"));
    assert!(!Family::Fds.includes("kata_guest_fds"));
    assert!(Family::CpuTime.includes("kata_guest_cpu_time"));
    assert!(!Family::CpuTime.includes("kata_guest_cpu"));
    assert!(Family::Diskstat.includes("kata_guest_diskstat"));
    assert!(!Family::Diskstat.includes("guest_diskstat"));
}

#[test]
fn select_keeps_metric_and_sample_order() {
    let metrics = metrics_of(vec![
        sample("kata_guest_meminfo", &[("item", "a")], 1),
        sample("other", &[], 2),
        sample("kata_guest_meminfo_b", &[("item", "b")], 3),
        sample("kata_guest_meminfo", &[("item", "c")], 4),
    ]);
    let values: Vec<u64> = select(&metrics, Family::Meminfo).iter().map(|s| s.value).collect();
    assert_eq!(values, vec![1, 4, 3]);
    assert!(select(&metrics, Family::Tasks).is_empty());
}

#[test]
fn memory_formulas() {
    let metrics = metrics_of(vec![
        sample("kata_guest_meminfo", &[("item", "memtotal")], 1000),
        sample("kata_guest_meminfo", &[("item", "memfree")], 400),
        sample("kata_guest_meminfo", &[("item", "active")], 30),
        sample("kata_guest_meminfo", &[("item", "inactive_file")], 12),
        sample("kata_guest_meminfo", &[("item", "cached")], 7),
        sample("kata_guest_meminfo", &[("item", "buffers")], 5),
        sample("kata_guest_meminfo", &[("item", "anon_pages")], 99),
        sample("kata_guest_meminfo", &[("item", "swaptotal")], 10),
        sample("kata_guest_meminfo", &[("item", "swapfree")], 25),
        sample("kata_guest_meminfo", &[("item", "mapped")], 3),
        sample("kata_guest_meminfo", &[("other", "memtotal")], 77),
        sample("kata_guest_meminfo", &[("item", "memfree")], 300),
    ]);
    let memory = memory_from(&metrics, StandardLabels::default());
    assert_eq!(memory.usage_bytes, 700);
    assert_eq!(memory.working_set_bytes, Some(42));
    assert_eq!(memory.cache_bytes, Some(12));
    assert_eq!(memory.rss_bytes, Some(99));
    assert_eq!(memory.swap_bytes, Some(0));
    assert_eq!(memory.mapped_file_bytes, Some(3));
    assert!(memory.failures.is_empty());
}

#[test]
fn memory_without_information_is_empty() {
    let metrics = metrics_of(vec![sample("kata_guest_meminfo", &[("item", "memtotal")], 1000)]);
    let memory = memory_from(&metrics, StandardLabels::default());
    assert_eq!(memory.usage_bytes, 0);
    assert_eq!(memory.working_set_bytes, None);
    assert_eq!(memory.cache_bytes, None);
    assert_eq!(memory.rss_bytes, None);
    assert_eq!(memory.swap_bytes, None);
    assert_eq!(memory.mapped_file_bytes, None);
}

#[test]
fn memory_sums_wrap() {
    let metrics = metrics_of(vec![
        sample("kata_guest_meminfo", &[("item", "active")], u64::MAX),
        sample("kata_guest_meminfo", &[("item", "inactive_file")], 2),
    ]);
    let memory = memory_from(&metrics, StandardLabels::default());
    assert_eq!(memory.working_set_bytes, Some(1));
}

#[test]
fn process_counts() {
    let metrics = metrics_of(vec![
        sample("kata_guest_tasks", &[("item", "cur")], 10),
        sample("kata_guest_tasks", &[("item", "max")], 500),
        sample("kata_guest_tasks", &[("item", "cur")], 12),
        sample("kata_guest_tasks", &[("item", "other")], 1),
        sample("kata_guest_tasks", &[], 2),
        sample("kata_shim_threads", &[], 5),
        sample("kata_hypervisor_threads", &[], 7),
        sample("kata_other_threads", &[], 100),
        sample("kata_agent_fds", &[], 20),
        sample("kata_virtiofsd_fds", &[], 22),
    ]);
    let process = process_from(&metrics, StandardLabels::default());
    assert_eq!(process.count, 12);
    assert_eq!(process.thread_count_max, Some(500));
    assert_eq!(process.thread_count, 12);
    assert_eq!(process.file_descriptors, 42);
    assert!(process.tasks_by_state.is_empty());
    let none = process_from(&PrometheusMetrics::new(), StandardLabels::default());
    assert_eq!(none.count, 0);
    assert_eq!(none.thread_count_max, None);
    assert_eq!(none.thread_count, 0);
    assert_eq!(none.file_descriptors, 0);
}

fn netdev(interface: &str, item: &str, value: u64) -> MetricSample<u64> {
    sample("kata_guest_netdev_stat", &[("interface", interface), ("item", item)], value)
}

#[test]
fn network_totals_cover_matching_interfaces_only() {
    let metrics = metrics_of(vec![
        netdev("eth0", "recv_bytes", 100),
        netdev("eth0", "xmit_bytes", 50),
        netdev("lo", "recv_bytes", 1000),
        netdev("tap1", "recv_bytes", 11),
        netdev("eth0", "recv_packets", 3),
        netdev("eth0", "xmit_packets", 4),
        netdev("eth0", "recv_errs", 1),
        netdev("tap1", "recv_errs", 2),
        netdev("eth0", "xmit_errs", 5),
        netdev("eth0", "recv_drop", 6),
        netdev("eth0", "xmit_drop", 7),
        netdev("eth0", "unknown", 9),
        sample("kata_guest_netdev_stat", &[("item", "recv_bytes")], 5000),
    ]);
    let config = ConversionConfig::default();
    let network = network_from(&metrics, &config, StandardLabels::default());
    assert_eq!(network.receive_bytes_total, 111);
    assert_eq!(network.transmit_bytes_total, 50);
    assert_eq!(network.receive_packets_total, 3);
    assert_eq!(network.transmit_packets_total, 4);
    assert_eq!(network.receive_errors_total, Some(3));
    assert_eq!(network.transmit_errors_total, Some(5));
    assert_eq!(network.receive_packets_dropped_total, Some(6));
    assert_eq!(network.transmit_packets_dropped_total, Some(7));
    assert!(network.per_interface.is_empty());
}

#[test]
fn network_keeps_interfaces_when_asked() {
    let metrics = metrics_of(vec![
        netdev("eth0", "recv_bytes", 100),
        netdev("tap1", "xmit_drop", 2),
        netdev("eth0", "recv_bytes", 70),
        netdev("veth9", "nothing", 1),
        netdev("lo", "recv_bytes", 1),
    ]);
    let mut config = ConversionConfig::default();
    config.include_per_interface = true;
    let network = network_from(&metrics, &config, StandardLabels::default());
    assert_eq!(network.receive_bytes_total, 170);
    assert_eq!(network.receive_errors_total, None);
    let mut names = network.per_interface.keys();
    names.sort();
    assert_eq!(names, vec!["eth0".to_string(), "tap1".to_string(), "veth9".to_string()]);
    let eth0 = network.per_interface.get("eth0").unwrap();
    assert_eq!(eth0.name, "eth0");
    assert_eq!(eth0.receive_bytes, 70);
    assert_eq!(eth0.transmit_bytes, 0);
    let tap1 = network.per_interface.get("tap1").unwrap();
    assert_eq!(tap1.transmit_dropped, Some(2));
    assert_eq!(tap1.receive_dropped, None);
    let veth9 = network.per_interface.get("veth9").unwrap();
    assert_eq!(veth9.name, "veth9");
    assert_eq!(veth9.receive_bytes, 0);
}

#[test]
fn converter_converts_network_and_process() {
    let metrics = metrics_of(vec![
        netdev("eth0", "recv_bytes", 8),
        sample("kata_guest_tasks", &[("item", "cur")], 3),
    ]);
    let converter = CloudHypervisorConverter::with_enricher(
        ConversionConfig::default(),
        MockLabelEnricher::new("my-pod", "default", "12345-67890"),
        "sandbox-123".to_string(),
    );
    let network = converter.convert_network(&metrics).unwrap();
    assert_eq!(network.receive_bytes_total, 8);
    assert_eq!(network.standard_labels.id, "12345-67890");
    let process = converter.convert_process(&metrics).unwrap();
    assert_eq!(process.count, 3);
    assert_eq!(process.standard_labels.pod, "my-pod");
    let labels = converter.create_standard_labels();
    assert_eq!(labels.container, "kata");
    assert_eq!(labels.namespace, "default");
}

#[test]
fn test_factory_creates_cloud_hypervisor_converter() {
    let config = ConversionConfig::default();
    let cache = Arc::new(SandboxCache::new());
    let enricher = CRILabelEnricher::new(cache);
    let converter = create_converter(config, enricher, "test".parse().unwrap());
    assert!(std::mem::size_of_val(&converter) > 0);
}

fn cpu(cpu: &str, item: &str, value: u64) -> MetricSample<u64> {
    sample("kata_guest_cpu_time", &[("cpu", cpu), ("item", item)], value)
}

#[test]
fn cpu_jiffies_add_up_the_totals_only() {
    let metrics = metrics_of(vec![
        cpu("total", "user", 56160),
        cpu("total", "system", 82060),
        cpu("0", "user", 1000),
        cpu("1", "system", 2000),
        cpu("total", "guest", 5),
        cpu("total", "nice", 7),
        cpu("total", "idle", 100000),
        sample("kata_guest_cpu_time", &[("item", "user")], 9),
        sample("kata_guest_cpu_time", &[("cpu", "total")], 9),
        sample("kata_guest_load", &[("cpu", "total"), ("item", "user")], 9),
    ]);
    assert_eq!(cpu_jiffies_from(&metrics), 56160 + 82060 + 5 + 7);
    assert_eq!(cpu_jiffies_from(&PrometheusMetrics::new()), 0);
}

#[test]
fn cpu_jiffies_wrap() {
    let metrics = metrics_of(vec![cpu("total", "user", u64::MAX), cpu("total", "nice", 3)]);
    assert_eq!(cpu_jiffies_from(&metrics), 2);
}

fn diskstat(disk: &str, item: &str, value: u64) -> MetricSample<u64> {
    sample("kata_guest_diskstat", &[("disk", disk), ("item", item)], value)
}

#[test]
fn disk_counts_count_operations_and_bytes() {
    let metrics = metrics_of(vec![
        diskstat("sda", "reads", 10),
        diskstat("sda", "writes", 20),
        diskstat("sdb", "reads", 1),
        diskstat("sda", "sectors_read", 3),
        diskstat("sdb", "sectors_written", 2),
        diskstat("sdc", "time_reading", 999),
        diskstat("sda", "reads", 11),
        sample("kata_guest_diskstat", &[("item", "reads")], 500),
    ]);
    let mut config = ConversionConfig::default();
    let totals = disk_counts_from(&metrics, &config);
    assert_eq!(totals.reads_total, 22);
    assert_eq!(totals.writes_total, 20);
    assert_eq!(totals.reads_bytes_total, 1536);
    assert_eq!(totals.writes_bytes_total, 1024);
    assert!(totals.per_device.is_empty());

    config.include_per_device = true;
    let disk = disk_counts_from(&metrics, &config);
    assert_eq!(disk.reads_total, 22);
    let mut names = disk.per_device.keys();
    names.sort();
    assert_eq!(names, vec!["sda".to_string(), "sdb".to_string(), "sdc".to_string()]);
    let sda = disk.per_device.get("sda").unwrap();
    assert_eq!(sda.device, "sda");
    assert_eq!(sda.reads, 11);
    assert_eq!(sda.writes, 20);
    assert_eq!(sda.reads_bytes, 1536);
    assert_eq!(sda.writes_bytes, 0);
    let sdc = disk.per_device.get("sdc").unwrap();
    assert_eq!(sdc.device, "sdc");
    assert_eq!(sdc.reads, 0);
}

#[test]
fn disk_sector_bytes_wrap() {
    let metrics = metrics_of(vec![diskstat("sda", "sectors_read", u64::MAX)]);
    let disk = disk_counts_from(&metrics, &ConversionConfig::default());
    assert_eq!(disk.reads_bytes_total, u64::MAX.wrapping_mul(512));
}
