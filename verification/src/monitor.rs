//! Sandbox discovery, metadata enrichment and metrics collection.

pub mod cri;
pub mod cri_client;
pub mod metrics_cache;
pub mod metrics_collector;
pub mod sandbox_cache;
pub mod sandbox_cache_manager;
