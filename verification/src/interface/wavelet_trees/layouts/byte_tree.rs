//! The byte tree layout strategy over a chosen memory layout.

use vstd::prelude::*;
use super::common::MemoryLayout;

verus! {

/// A byte tree over the given memory layout.
pub struct ByteTree<Layout: MemoryLayout> {
    pub layout: Layout,
}

impl<Layout: MemoryLayout> ByteTree<Layout> {
    /// The native code fragments of the layout parameter.
    pub fn parameters_c_code(&self) -> (r: Vec<String>)
        ensures
            r.deep_view() =~= seq![
                if self.layout.spec_lex_ordered() {
                    "true"@
                } else {
                    "false"@
                },
            ],
    {
        let mut r: Vec<String> = Vec::new();
        r.push(self.layout.c_code());
        r
    }

    /// The native code expression of the byte tree instantiation.
    pub fn c_code(&self) -> (r: String)
        ensures
            r@ == "sdsl::byte_tree<"@ + (if self.layout.spec_lex_ordered() {
                "true"@
            } else {
                "false"@
            }) + ">"@,
    {
        let mut r = "sdsl::byte_tree<".to_owned();
        let flag = self.layout.c_code();
        r.append(flag.as_str());
        r.append(">");
        r
    }
}

} // verus!
