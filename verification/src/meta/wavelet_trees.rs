//! Descriptors of the wavelet tree structures and their layout markers.

use vstd::prelude::*;

pub mod layouts;
pub mod wt_huff;
pub mod wt_int;

use crate::meta::common::{Meta, MetaKind, leaf_model, models_of};

verus! {

/// The wavelet tree descriptors followed by the layout descriptors, in a
/// stable order.
pub fn get_metas() -> (r: Vec<Meta>)
    ensures
        models_of(r@) == seq![
            wt_huff::spec_model(),
            wt_int::spec_model(),
            leaf_model(MetaKind::BreadthFirstSearch),
            layouts::byte_tree::spec_default_model(),
        ],
{
    let mut metas: Vec<Meta> = Vec::new();
    metas.push(Meta::WtHuff(wt_huff::WtHuffMeta::new()));
    metas.push(Meta::WtInt(wt_int::WtIntMeta::new()));
    let mut rest = layouts::get_metas();
    let ghost layout_metas = rest@;
    metas.append(&mut rest);
    proof {
        crate::meta::common::lemma_models_of(metas@);
        crate::meta::common::lemma_models_of(layout_metas);
        assert(metas@[2] == layout_metas[0]);
        assert(metas@[3] == layout_metas[1]);
        assert(models_of(metas@) =~= seq![
            wt_huff::spec_model(),
            wt_int::spec_model(),
            leaf_model(MetaKind::BreadthFirstSearch),
            layouts::byte_tree::spec_default_model(),
        ]);
    }
    metas
}

} // verus!
