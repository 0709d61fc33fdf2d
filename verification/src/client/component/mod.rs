//! Page components.
pub mod card;
pub mod head;
pub mod header;
pub mod helper;
pub mod icon;
pub mod line_chart;
