//! The build pipeline: instantiation discovery over IR text, specification
//! construction, and workspace planning.

pub mod analyse;
pub mod sdsl_c;
