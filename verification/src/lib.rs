//! Segmentation of an outline-style text document into typed sections.
//!
//! A document is split into a preamble and per-headline bodies, each anchored
//! by validated byte ranges, and raw byte offsets are translated into 1-based
//! line numbers for diagnostics and citation.

pub mod errors;
pub mod location_translate;
pub mod org_kind;
pub mod org_section;
pub mod outline;
