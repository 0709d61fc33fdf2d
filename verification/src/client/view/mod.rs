//! Pages.
pub mod dashboard;
pub mod error;
pub mod home;
