//! Formatting of date, time and offset components into bytes.

pub mod answers;
pub mod calendar;
pub mod component_laws;
pub mod components;
pub mod float;
pub mod iso8601;
pub mod iso8601_laws;
pub mod iso8601_positions;
pub mod laws;
pub mod modifier;
pub mod names;
pub mod num_fmt;
pub mod output;
pub mod place_laws;
pub mod ranged;
pub mod subsecond;
pub mod text;
