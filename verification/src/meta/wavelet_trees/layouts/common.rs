//! Descriptor of the breadth-first memory layout marker.

use vstd::prelude::*;

verus! {

/// Descriptor of the breadth-first layout: no parameters, a fixed native
/// flag, no files of its own.
#[derive(Clone, Debug)]
pub struct BreadthFirstSearchMeta {}

impl BreadthFirstSearchMeta {
    /// The breadth-first layout descriptor.
    pub fn new() -> (r: Self) {
        BreadthFirstSearchMeta {  }
    }
}

} // verus!
