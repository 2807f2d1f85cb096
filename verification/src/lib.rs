//! A timeline rendering engine: places tracks, events and connections on a
//! continuous epoch-day axis and emits a vector-markup artifact or a paginated
//! document plan.

pub mod color;
pub mod date;
pub mod error;
pub mod escape;
pub mod export_text;
pub mod files;
pub mod layout;
pub mod models;
pub mod pdf;
pub mod svg;
pub mod textfmt;
