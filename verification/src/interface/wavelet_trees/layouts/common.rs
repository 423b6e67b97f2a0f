//! Marker types for the order in which a wavelet tree's nodes are laid out
//! in memory.

use vstd::prelude::*;

verus! {

/// Layout of the tree structure in memory: rendered into native code as a
/// lexicographic-ordering flag.
pub trait MemoryLayout {
    /// Whether the layout orders nodes lexicographically, as the contracts
    /// see it.
    spec fn spec_lex_ordered(&self) -> bool;

    /// Whether the layout orders nodes lexicographically.
    fn lex_ordered(&self) -> (r: bool)
        ensures
            r == self.spec_lex_ordered(),
    ;

    /// The native code fragment of the layout flag.
    fn c_code(&self) -> (r: String)
        ensures
            r@ == if self.spec_lex_ordered() {
                "true"@
            } else {
                "false"@
            },
    ;
}

/// Nodes laid out in breadth-first order.
pub struct BreadthFirstSearch {}

/// Nodes laid out in depth-first order.
pub struct DepthFirstSearch {}

impl MemoryLayout for BreadthFirstSearch {
    open spec fn spec_lex_ordered(&self) -> bool {
        false
    }

    fn lex_ordered(&self) -> (r: bool) {
        false
    }

    fn c_code(&self) -> (r: String) {
        "false".to_owned()
    }
}

impl MemoryLayout for DepthFirstSearch {
    open spec fn spec_lex_ordered(&self) -> bool {
        true
    }

    fn lex_ordered(&self) -> (r: bool) {
        true
    }

    fn c_code(&self) -> (r: String) {
        "true".to_owned()
    }
}

} // verus!
