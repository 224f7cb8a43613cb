//! Conversion of hypervisor metrics to cAdvisor-compatible output.

pub mod cadvisor;
pub mod cloud_hypervisor;
pub mod config;
