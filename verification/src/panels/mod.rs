//! The panels of the console.

pub mod band_scan;
pub mod band_status;
pub mod call_sign;
pub mod contacts;
pub mod log_book;
pub mod view_laws;
pub mod waterfall;
