//! Grid-cell index construction for coordinate-to-timezone lookups over the
//! Natural Earth timezone boundaries.
pub mod artifact;
pub mod cache;
pub mod dataset;
pub mod error;
pub mod ids;
