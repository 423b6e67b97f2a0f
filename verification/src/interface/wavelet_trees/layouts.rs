//! Marker types for the memory layout of wavelet trees.

pub mod byte_tree;
pub mod common;
