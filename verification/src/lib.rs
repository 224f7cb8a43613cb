//! Sandbox lifecycle tracking and metrics collection for Kata Containers.

pub mod config;
pub mod context;
pub mod monitor;
pub mod scan;
pub mod server;
pub mod strmap;
pub mod text;
pub mod utils;
