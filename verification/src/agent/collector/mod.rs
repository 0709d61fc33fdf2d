//! Collectors: what each kind of collector decides between its readings.
pub mod atc_sensor;
pub mod helper;
pub mod internal;
pub mod miflora_sensor;
pub mod system;
