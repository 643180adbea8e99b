//! The scene store's logic: schema evolution of the embedded database, the
//! repository's rules (clip placement without overlaps, one timeline per
//! mood, order indexes, defaults), and the portable package format with its
//! export and import.
pub mod export;
pub mod import_plan;
pub mod model;
pub mod naming;
pub mod package;
pub mod repository;
pub mod round_trip;
pub mod schema;
pub mod telemetry;
pub mod text;
