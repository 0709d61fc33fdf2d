//! Exporters: where collected metrics go.
pub mod batch;
pub mod cache;
pub mod direct;
pub mod http;
