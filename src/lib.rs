//! Calendar reminder core: an ordered event store, reminder timing, the
//! alert gate and the focus/selection state machine of a terminal calendar.

pub mod app;
pub mod config;
pub mod event;
pub mod focus;
pub mod graph;
pub mod instant;
pub mod store;
