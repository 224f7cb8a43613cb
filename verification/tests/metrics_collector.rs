use kata_pulse::monitor::metrics_cache::MetricsCache;
use kata_pulse::monitor::metrics_collector::MetricsCollector;
use kata_pulse::monitor::sandbox_cache::{SandboxCRIMetadata, SandboxCache};

fn get(cache: &MetricsCache<String>, id: &str) -> Option<String> {
    cache.get_metrics(id).map(|c| c.metrics.clone())
}

#[test]
fn test_metrics_collector_creation() {
    let collector = MetricsCollector::new(30);
    assert!(std::mem::size_of_val(&collector) > 0);
    assert_eq!(collector.metrics_interval_secs(), 30);
}

#[test]
fn cycle_is_skipped_when_no_sandbox_is_registered() {
    let registry = SandboxCache::new();
    let mut store: MetricsCache<String> = MetricsCache::new();
    store.start_collection();
    store.add_metrics("old".to_string(), "O".to_string());
    store.finish_collection();
    store.add_metrics("half".to_string(), "H".to_string());
    let collector = MetricsCollector::new(60);
    assert!(collector.start_cycle(&registry, &mut store.staging).is_none());
    assert_eq!(get(&store, "old"), Some("O".to_string()));
    store.finish_collection();
    assert_eq!(get(&store, "half"), Some("H".to_string()));
}

#[test]
fn cycle_hands_out_the_registered_ids() {
    let mut registry = SandboxCache::new();
    registry.put_if_not_exists("sbx-1", SandboxCRIMetadata::default());
    registry.put_if_not_exists("sbx-2", SandboxCRIMetadata::default());
    let mut store: MetricsCache<String> = MetricsCache::new();
    let collector = MetricsCollector::new(60);
    let mut ids = collector.start_cycle(&registry, &mut store.staging).unwrap();
    ids.sort();
    assert_eq!(ids, vec!["sbx-1".to_string(), "sbx-2".to_string()]);
}

#[test]
fn failed_fetch_leaves_the_sandbox_absent() {
    let mut registry = SandboxCache::new();
    registry.put_if_not_exists("sbx-1", SandboxCRIMetadata::default());
    let mut store: MetricsCache<String> = MetricsCache::new();
    let collector = MetricsCollector::new(60);
    let ids = collector.start_cycle(&registry, &mut store.staging).unwrap();
    assert_eq!(ids, vec!["sbx-1".to_string()]);
    let stats = collector.finish_cycle(&mut store, vec![("sbx-1".to_string(), None)]);
    assert_eq!(stats.success_count, 0);
    assert_eq!(stats.failure_count, 1);
    assert_eq!(get(&store, "sbx-1"), None);
}

#[test]
fn next_cycle_replaces_and_drops_failed_sandboxes() {
    let mut registry = SandboxCache::new();
    registry.put_if_not_exists("sbx-1", SandboxCRIMetadata::default());
    let mut store: MetricsCache<String> = MetricsCache::new();
    let collector = MetricsCollector::new(60);

    assert!(collector.start_cycle(&registry, &mut store.staging).is_some());
    let stats =
        collector.finish_cycle(&mut store, vec![("sbx-1".to_string(), Some("M1".to_string()))]);
    assert_eq!(stats.success_count, 1);
    assert_eq!(stats.failure_count, 0);
    assert_eq!(get(&store, "sbx-1"), Some("M1".to_string()));

    registry.put_if_not_exists("sbx-2", SandboxCRIMetadata::default());
    assert!(collector.start_cycle(&registry, &mut store.staging).is_some());
    assert_eq!(get(&store, "sbx-1"), Some("M1".to_string()));
    let stats = collector.finish_cycle(
        &mut store,
        vec![
            ("sbx-1".to_string(), Some("M2".to_string())),
            ("sbx-2".to_string(), None),
        ],
    );
    assert_eq!(stats.success_count, 1);
    assert_eq!(stats.failure_count, 1);
    assert_eq!(get(&store, "sbx-1"), Some("M2".to_string()));
    assert_eq!(get(&store, "sbx-2"), None);
}

#[test]
fn stale_metrics_are_not_kept_for_a_failed_sandbox() {
    let mut registry = SandboxCache::new();
    registry.put_if_not_exists("sbx-1", SandboxCRIMetadata::default());
    let mut store: MetricsCache<String> = MetricsCache::new();
    let collector = MetricsCollector::new(60);
    assert!(collector.start_cycle(&registry, &mut store.staging).is_some());
    collector.finish_cycle(&mut store, vec![("sbx-1".to_string(), Some("M1".to_string()))]);
    assert!(collector.start_cycle(&registry, &mut store.staging).is_some());
    collector.finish_cycle(&mut store, vec![("sbx-1".to_string(), None)]);
    assert_eq!(get(&store, "sbx-1"), None);
}

#[test]
fn finish_cycle_with_no_results_publishes_an_empty_generation() {
    let mut store: MetricsCache<String> = MetricsCache::new();
    store.start_collection();
    store.add_metrics("a".to_string(), "A".to_string());
    store.finish_collection();
    store.start_collection();
    let collector = MetricsCollector::new(1);
    let stats = collector.finish_cycle(&mut store, Vec::new());
    assert_eq!(stats.success_count, 0);
    assert_eq!(stats.failure_count, 0);
    assert_eq!(get(&store, "a"), None);
}

#[test]
fn results_are_recorded_in_staging_before_they_are_published() {
    let mut store: MetricsCache<String> = MetricsCache::new();
    let collector = MetricsCollector::new(60);
    let stats = collector.record_results(
        &mut store.staging,
        vec![
            ("a".to_string(), Some("A".to_string())),
            ("b".to_string(), None),
            ("c".to_string(), Some("C".to_string())),
        ],
    );
    assert_eq!(stats.success_count, 2);
    assert_eq!(stats.failure_count, 1);
    assert_eq!(get(&store, "a"), None);
    store.finish_collection();
    assert_eq!(get(&store, "a"), Some("A".to_string()));
    assert_eq!(get(&store, "b"), None);
    assert_eq!(get(&store, "c"), Some("C".to_string()));
}
