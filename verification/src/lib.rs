//! Verified core of the chezmoi home monitoring agent and dashboard.
pub mod agent;
pub mod cache;
pub mod client;
