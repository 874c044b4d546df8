//! Verified core of a live CSV/TSV plotting tool: row parsing, line
//! assembly, plot-series storage, toolbar state and text formatting.
pub mod text;
pub mod csv;
pub mod plot_state;
pub mod toolbar;
pub mod config;
pub mod hover;
pub mod format;
