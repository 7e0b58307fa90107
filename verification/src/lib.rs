//! Travel-history reconstruction from game journals, and reconciliation of
//! that history against a list of already imported systems.

pub mod aggregate;
pub mod edsm_api;
pub mod event;
pub mod json;
pub mod name_map;
pub mod reconcile;
pub mod report;
pub mod scan;
pub mod text;
