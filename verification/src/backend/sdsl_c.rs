//! Naming and planning for the generated native interface library.

pub mod specification;

use vstd::prelude::*;

verus! {

/// Builds the exported symbol names of one instantiation: an optional
/// component base name, a function name, and the instantiation identifier,
/// joined by underscores.
pub struct FunctionBuilder {
    pub base_name: Option<String>,
    pub id: String,
}

impl FunctionBuilder {
    /// Remember a component base name and an instantiation identifier.
    pub fn new(base_name: Option<&str>, id: &str) -> (r: Self)
        ensures
            r.id@ == id@,
            match base_name {
                Some(b) => r.base_name is Some && r.base_name->0@ == b@,
                None => r.base_name is None,
            },
    {
        FunctionBuilder {
            base_name: match base_name {
                Some(b) => Some(b.to_owned()),
                None => None,
            },
            id: id.to_owned(),
        }
    }

    /// The exported symbol name for `name`: `{base}_{name}_{id}`, or
    /// `{name}_{id}` when no component base name applies.
    pub fn full_name(&self, name: &str) -> (r: String)
        ensures
            r@ == match self.base_name {
                Some(b) => b@ + seq!['_'] + name@ + seq!['_'] + self.id@,
                None => name@ + seq!['_'] + self.id@,
            },
    {
        proof {
            reveal_strlit("_");
            assert("_"@ =~= seq!['_']);
        }
        match &self.base_name {
            Some(base_name) => {
                let mut r = base_name.clone();
                r.append("_");
                r.append(name);
                r.append("_");
                r.append(self.id.as_str());
                proof {
                    assert(r@ =~= self.base_name->0@ + seq!['_'] + name@ + seq!['_'] + self.id@);
                }
                r
            },
            None => {
                let mut r = name.to_owned();
                r.append("_");
                r.append(self.id.as_str());
                proof {
                    assert(r@ =~= name@ + seq!['_'] + self.id@);
                }
                r
            },
        }
    }
}

} // verus!
