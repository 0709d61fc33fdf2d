//! Dashboard cards.
pub mod history_chart;
pub mod miflora;
