//! Descriptors for the bit pattern marker types. They contribute native
//! code fragments (a pattern and its length) but no files of their own.

use vstd::prelude::*;

verus! {

/// Descriptor of the all-zeros bit pattern.
#[derive(Clone, Debug)]
pub struct P0Meta {}

impl P0Meta {
    /// The all-zeros pattern descriptor.
    pub fn new() -> (r: Self) {
        P0Meta {  }
    }
}

/// Descriptor of the all-ones bit pattern.
#[derive(Clone, Debug)]
pub struct P1Meta {}

impl P1Meta {
    /// The all-ones pattern descriptor.
    pub fn new() -> (r: Self) {
        P1Meta {  }
    }
}

/// Descriptor of the `10` bit pattern.
#[derive(Clone, Debug)]
pub struct P10Meta {}

impl P10Meta {
    /// The `10` pattern descriptor.
    pub fn new() -> (r: Self) {
        P10Meta {  }
    }
}

/// Descriptor of the `01` bit pattern.
#[derive(Clone, Debug)]
pub struct P01Meta {}

impl P01Meta {
    /// The `01` pattern descriptor.
    pub fn new() -> (r: Self) {
        P01Meta {  }
    }
}

} // verus!
