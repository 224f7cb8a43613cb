//! Text formats and conversions around the collected metrics.

pub mod metrics_converter;
pub mod prometheus_parser;
pub mod shim_client;
