//! The pure face of the runtime wrapper types: marker types for bit
//! patterns and tree layouts, and the naming conventions they share with
//! the generated native code.

pub mod common;
pub mod wavelet_trees;
