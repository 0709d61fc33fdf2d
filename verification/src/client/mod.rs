//! The dashboard client: the data its pages are built from.
pub mod component;
pub mod size;
pub mod view;
