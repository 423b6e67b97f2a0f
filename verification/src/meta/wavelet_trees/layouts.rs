//! Descriptors of the wavelet tree memory layout markers.

use vstd::prelude::*;

pub mod byte_tree;
pub mod common;

use crate::meta::common::{Meta, MetaKind, leaf_model, models_of};

verus! {

/// The layout descriptors, in a stable order.
pub fn get_metas() -> (r: Vec<Meta>)
    ensures
        models_of(r@) == seq![
            leaf_model(MetaKind::BreadthFirstSearch),
            byte_tree::spec_default_model(),
        ],
{
    let mut metas: Vec<Meta> = Vec::new();
    metas.push(Meta::BreadthFirstSearch(common::BreadthFirstSearchMeta::new()));
    metas.push(Meta::ByteTree(byte_tree::ByteTreeMeta::new()));
    proof {
        crate::meta::common::lemma_models_of(metas@);
        assert(models_of(metas@) =~= seq![
            leaf_model(MetaKind::BreadthFirstSearch),
            byte_tree::spec_default_model(),
        ]);
    }
    metas
}

} // verus!
