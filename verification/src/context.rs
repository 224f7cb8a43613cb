//! Application context: the one place where the registry, the metrics store,
//! the reconciler and the collection scheduler are created.

use crate::monitor::metrics_cache::{MetricsCache, StoreView};
use crate::monitor::metrics_collector::MetricsCollector;
use crate::monitor::sandbox_cache::{MetadataView, SandboxCache};
use crate::monitor::sandbox_cache_manager::{ManagerPhase, SandboxCacheManager};
use vstd::prelude::*;

verus! {

/// Why the application context could not be created.
#[derive(Debug, Clone, Copy, PartialEq, Eq, Structural)]
pub enum ContextError {
    /// The runtime endpoint is empty.
    MissingRuntimeEndpoint,
    /// The metrics interval is zero.
    ZeroMetricsInterval,
}

impl ContextError {
    /// The text of the error.
    pub open spec fn text(self) -> Seq<char> {
        match self {
            ContextError::MissingRuntimeEndpoint => "runtime endpoint missing"@,
            ContextError::ZeroMetricsInterval => "metrics_interval_secs must be > 0, got 0"@,
        }
    }

    /// The text of the error.
    pub fn message(&self) -> (text: String)
        ensures
            text@ == self.text(),
    {
        match self {
            ContextError::MissingRuntimeEndpoint => "runtime endpoint missing".to_owned(),
            ContextError::ZeroMetricsInterval => "metrics_interval_secs must be > 0, got 0".to_owned(),
        }
    }
}

/// Application context holding the registry, the metrics store, the
/// reconciler and the collection scheduler.
pub struct AppContext<M> {
    sandbox_cache: SandboxCache,
    metrics_cache: MetricsCache<M>,
    sandbox_cache_manager: SandboxCacheManager,
    metrics_collector: MetricsCollector,
}

impl<M> AppContext<M> {
    /// What the registry holds.
    pub closed spec fn registry(&self) -> Map<Seq<char>, MetadataView> {
        self.sandbox_cache@
    }

    /// What the metrics store holds.
    pub closed spec fn store(&self) -> StoreView<M> {
        self.metrics_cache@
    }

    /// The reconciler.
    pub closed spec fn manager(&self) -> SandboxCacheManager {
        self.sandbox_cache_manager
    }

    /// The collection scheduler.
    pub closed spec fn collector(&self) -> MetricsCollector {
        self.metrics_collector
    }

    /// Create a new application context. The runtime endpoint must not be
    /// empty and the metrics interval must be above zero; the endpoint is
    /// looked at first. The registry and both generations of the store start
    /// out empty, and the reconciler is not started.
    pub fn new(runtime_endpoint: String, metrics_interval_secs: u64) -> (context: Result<
        Self,
        ContextError,
    >)
        ensures
            match context {
                Ok(ctx) => {
                    &&& runtime_endpoint@.len() > 0
                    &&& metrics_interval_secs > 0
                    &&& ctx.registry() == Map::<Seq<char>, MetadataView>::empty()
                    &&& ctx.store().current == Map::<Seq<char>, M>::empty()
                    &&& ctx.store().staging == Map::<Seq<char>, M>::empty()
                    &&& ctx.manager().endpoint_text() == runtime_endpoint@
                    &&& ctx.manager().current_phase() == ManagerPhase::Unready
                    &&& ctx.collector().interval() == metrics_interval_secs
                },
                Err(e) => if runtime_endpoint@.len() == 0 {
                    e == ContextError::MissingRuntimeEndpoint
                } else {
                    metrics_interval_secs == 0 && e == ContextError::ZeroMetricsInterval
                },
            },
    {
        if runtime_endpoint.as_str().is_empty() {
            return Err(ContextError::MissingRuntimeEndpoint);
        }
        if metrics_interval_secs == 0 {
            return Err(ContextError::ZeroMetricsInterval);
        }
        Ok(
            AppContext {
                sandbox_cache: SandboxCache::new(),
                metrics_cache: MetricsCache::new(),
                sandbox_cache_manager: SandboxCacheManager::new(runtime_endpoint),
                metrics_collector: MetricsCollector::new(metrics_interval_secs),
            },
        )
    }

    /// Get reference to the sandbox cache.
    pub fn sandbox_cache(&self) -> (cache: &SandboxCache)
        ensures
            cache@ == self.registry(),
    {
        &self.sandbox_cache
    }

    /// Get reference to the metrics cache.
    pub fn metrics_cache(&self) -> (cache: &MetricsCache<M>)
        ensures
            cache@ == self.store(),
    {
        &self.metrics_cache
    }

    /// Get reference to the sandbox cache manager.
    pub fn sandbox_cache_manager(&self) -> (manager: &SandboxCacheManager)
        ensures
            *manager == self.manager(),
    {
        &self.sandbox_cache_manager
    }

    /// Get reference to the metrics collector.
    pub fn metrics_collector(&self) -> (collector: &MetricsCollector)
        ensures
            *collector == self.collector(),
    {
        &self.metrics_collector
    }

    /// Takes the context apart, so that each part can be shared on its own.
    pub fn into_parts(self) -> (parts: (
        SandboxCache,
        MetricsCache<M>,
        SandboxCacheManager,
        MetricsCollector,
    ))
        ensures
            parts.0@ == self.registry(),
            parts.1@ == self.store(),
            parts.2 == self.manager(),
            parts.3 == self.collector(),
    {
        (
            self.sandbox_cache,
            self.metrics_cache,
            self.sandbox_cache_manager,
            self.metrics_collector,
        )
    }
}

} // verus!
