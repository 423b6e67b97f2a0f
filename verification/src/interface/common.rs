//! Shared marker machinery of the runtime wrapper types.

pub mod bit_patterns;
