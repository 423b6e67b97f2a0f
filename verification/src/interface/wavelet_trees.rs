//! Marker types for the wavelet tree layouts.

pub mod layouts;
