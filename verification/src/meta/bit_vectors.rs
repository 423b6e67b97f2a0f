//! Descriptors of the plain and compressed bit vector structures.

use vstd::prelude::*;

pub mod bit_vector;
pub mod rrr_vector;

use crate::meta::common::{Meta, MetaKind, leaf_model, models_of};

verus! {

/// The bit vector descriptors, in a stable order.
pub fn get_metas() -> (r: Vec<Meta>)
    ensures
        models_of(r@) == seq![
            leaf_model(MetaKind::BitVector),
            leaf_model(MetaKind::RrrVector),
        ],
{
    let mut metas: Vec<Meta> = Vec::new();
    metas.push(Meta::BitVector(bit_vector::BitVectorMeta::new()));
    metas.push(Meta::RrrVector(rrr_vector::RrrVectorMeta::new()));
    proof {
        crate::meta::common::lemma_models_of(metas@);
        assert(models_of(metas@) =~= seq![
            leaf_model(MetaKind::BitVector),
            leaf_model(MetaKind::RrrVector),
        ]);
    }
    metas
}

} // verus!
