//! Screens query ASO (antisense oligonucleotide) sequences against a
//! reference library, reporting the library entries that are plausible
//! near-duplicates of each query under a selectable string-distance metric.

pub mod engine;
pub mod laws;
pub mod metric;
pub mod profile;
pub mod render;
pub mod report;
