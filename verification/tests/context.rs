use kata_pulse::context::{AppContext, ContextError};
use kata_pulse::monitor::sandbox_cache_manager::ManagerPhase;

#[test]
fn test_app_context_creation() {
    let context: Result<AppContext<String>, ContextError> =
        AppContext::new("/tmp/test.sock".to_string(), 1);
    assert!(context.is_ok());

    let ctx = context.unwrap();
    let _ = ctx.sandbox_cache();
    let _ = ctx.metrics_cache();
    let _ = ctx.sandbox_cache_manager();
    let _ = ctx.metrics_collector();
}

#[test]
fn test_app_context_empty_endpoint() {
    let context: Result<AppContext<String>, ContextError> = AppContext::new(String::new(), 1);
    assert!(context.is_err());
}

#[test]
fn test_app_context_zero_metrics_interval() {
    let context: Result<AppContext<String>, ContextError> =
        AppContext::new("/tmp/test.sock".to_string(), 0);
    assert!(context.is_err(), "Should reject zero metrics_interval_secs");
}

#[test]
fn test_app_context_valid_metrics_interval() {
    let context: Result<AppContext<String>, ContextError> =
        AppContext::new("/tmp/test.sock".to_string(), 60);
    assert!(
        context.is_ok(),
        "Should accept valid metrics_interval_secs > 0"
    );
}

#[test]
fn context_errors_name_what_is_wrong() {
    let missing: Result<AppContext<u8>, ContextError> = AppContext::new(String::new(), 0);
    assert_eq!(missing.err(), Some(ContextError::MissingRuntimeEndpoint));
    let zero: Result<AppContext<u8>, ContextError> = AppContext::new("/x".to_string(), 0);
    assert_eq!(zero.err(), Some(ContextError::ZeroMetricsInterval));
    assert_eq!(ContextError::MissingRuntimeEndpoint.message(), "runtime endpoint missing");
    assert_eq!(
        ContextError::ZeroMetricsInterval.message(),
        "metrics_interval_secs must be > 0, got 0"
    );
}

#[test]
fn new_context_holds_empty_state() {
    let ctx: AppContext<String> = AppContext::new("/tmp/test.sock".to_string(), 15).unwrap();
    assert!(ctx.sandbox_cache().get_sandbox_list().is_empty());
    assert!(ctx.metrics_cache().get_metrics("sbx-1").is_none());
    assert_eq!(ctx.sandbox_cache_manager().runtime_endpoint(), "/tmp/test.sock");
    assert_eq!(ctx.sandbox_cache_manager().phase(), ManagerPhase::Unready);
    assert_eq!(ctx.metrics_collector().metrics_interval_secs(), 15);
    let (registry, store, manager, collector) = ctx.into_parts();
    assert!(registry.get_sandbox_list().is_empty());
    assert!(store.get_metrics("sbx-1").is_none());
    assert_eq!(manager.runtime_endpoint(), "/tmp/test.sock");
    assert_eq!(collector.metrics_interval_secs(), 15);
}
