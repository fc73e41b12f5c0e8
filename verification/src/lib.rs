//! Verified decision core of the workbook runtime: the validation, planning and
//! bookkeeping that every producer-side edit goes through before it touches
//! storage, the op log or the calc graph.

pub mod charts;
pub mod config;
pub mod dirty;
pub mod error;
pub mod footprint;
pub mod formats;
pub mod grid;
pub mod names;
pub mod ops;
pub mod order;
pub mod recompute;
pub mod runtime;
pub mod sheets;
pub mod styles;
pub mod tables;
mod text;
pub mod visibility;
pub mod xlsx_recompute;
